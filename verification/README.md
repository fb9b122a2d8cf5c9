# msg_supabase

Syncing game data to [Supabase](https://supabase.com/), with the rules of the
sync proved in [Verus](https://github.com/verus-lang/verus).

- `src/` is the verified library. It decides what to send and what a reply
  means, and keeps the bookkeeping between the two. It does no I/O.
- `app/` wires the library into [Bevy](https://bevyengine.org/): plugins,
  events and resources, `ehttp` for the requests and `serde_json` for the rows.
- `tests/` runs the library on concrete values.

## Save modes

- `Insert` always creates new rows. A row whose sync key has already reached
  the server, or is under way to it, is left out, so a whole list can be handed
  over on every save.
- `Update` writes once, and then patches the row under the primary key that
  came back.
- `Upsert` resolves conflicts on the row type's unique columns, or on the
  table's primary key when it has none.

## What is proved

Every function states what it returns or changes. Beyond that:

- `plugin`: rows that reached the server are not sent again, order is kept,
  rows of a failed sync can go out again, and patches go to the row that was
  inserted.
- `session`: in Insert mode the same key is synced only once per session, also
  where requests overlap.
- `delta`: marks advance only when a write lands and never fall, every record
  of a growing list goes out exactly once, partitions do not disturb each
  other, and batch ids are never reused.
- `cursor`: cursors and watermarks only move forward.
- `queue`: results arrive once, in order.
- `request`: the `Prefer` header tells exactly what is asked, query parameters
  are only ever appended, and updates of different rows go to different URLs.

What is taken on trust stands in `http`, `error` and `request`: how
`ehttp::Headers` are built and its default timeout, UTF-8 decoding and one-item
slices of the standard library, and that `serde_json::Error` is a type.
