//! Verified core of a client that syncs game data to Supabase.
//!
//! - [`query`], [`request`] and [`http`] build requests of the PostgREST API;
//!   [`reply`] and [`error`] read what comes back.
//! - [`config`], [`event`], [`state`], [`queue`] and [`plugin`] decide what a
//!   sync sends and what its outcome changes; [`view`] does the same for reads.
//!   [`session`] states what holds over a whole session.
//! - [`cursor`] and [`delta`] keep track of how much of a growing data set has
//!   reached the server.
//! - [`traits`] is what a host implements for its row types.
//!
//! Nothing here does I/O: functions hand back requests and take replies.

pub mod config;
pub mod cursor;
pub mod delta;
pub mod error;
pub mod event;
pub mod http;
pub mod keymap;
pub mod keyset;
pub mod plugin;
pub mod prelude;
pub mod query;
pub mod queue;
pub mod reply;
pub mod request;
pub mod session;
pub mod state;
pub mod text;
pub mod traits;
pub mod view;
