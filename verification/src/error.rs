//! What a failed request reports.

use crate::text::{concat_two, IntoText};
use vstd::prelude::*;

verus! {

/// `serde_json::Error`: why a value could not be written as JSON or read from
/// it. Nothing is known of it but what it displays.
#[verifier::external_type_specification]
#[verifier::external_body]
pub struct ExJsonError(serde_json::Error);

/// Whether `shown` are the characters that `err` displays as.
pub open spec fn displays_as(err: &serde_json::Error, shown: Seq<char>) -> bool {
    exists|text: String|
        #[trigger] vstd::string::to_string_from_display_ensures(err, text) && text@ == shown
}

/// The characters that `err` displays as.
pub fn error_text(err: &serde_json::Error) -> (text: String)
    ensures
        displays_as(err, text@),
{
    err.to_string()
}

/// What a [`RequestError`] tells.
#[verifier::ext_equal]
pub struct Failure {
    /// Description of the failure.
    pub message: Seq<char>,
    /// HTTP status code, if a response was received.
    pub status: Option<u16>,
    /// Raw response body, if available.
    pub body: Option<Seq<char>>,
}

/// A failed Supabase request.
#[derive(Debug, Clone)]
pub struct RequestError {
    /// Human-readable description of the failure.
    pub message: String,
    /// HTTP status code, if a response was received.
    pub status: Option<u16>,
    /// Raw response body, if available.
    pub body: Option<String>,
}

impl View for RequestError {
    type V = Failure;

    open spec fn view(&self) -> Failure {
        Failure {
            message: self.message@,
            status: self.status,
            body: crate::text::optional_string(self.body),
        }
    }
}

impl RequestError {
    /// Whether this error reports that a value could not be serialized.
    pub open spec fn reports_serialization(self, err: serde_json::Error) -> bool {
        &&& self.status is None
        &&& self.body is None
        &&& exists|shown: Seq<char>|
            #[trigger] displays_as(&err, shown) && self.message@ == "Serialization failed: "@
                + shown
    }

    /// No response was received.
    pub fn network<S: IntoText>(message: S) -> (error: Self)
        ensures
            error@ == (Failure { message: message.text(), status: None, body: None }),
    {
        RequestError { message: message.into_text(), status: None, body: None }
    }

    /// A response was received that is not as wanted.
    pub fn http<S: IntoText>(message: S, status: u16, body: Option<String>) -> (error: Self)
        ensures
            error@ == (Failure {
                message: message.text(),
                status: Some(status),
                body: crate::text::optional_string(body),
            }),
    {
        RequestError { message: message.into_text(), status: Some(status), body }
    }

    /// A value could not be serialized, so nothing was sent.
    pub fn serialization(err: &serde_json::Error) -> (error: Self)
        ensures
            error.reports_serialization(*err),
    {
        let shown = error_text(err);
        RequestError {
            message: concat_two("Serialization failed: ", shown.as_str()),
            status: None,
            body: None,
        }
    }
}

/// What an error tells is what its fields hold.
pub proof fn law_an_error_tells_its_fields(error: RequestError)
    ensures
        error@.message == error.message@,
        error@.status == error.status,
        error.body matches Some(body) ==> error@.body == Some(body@),
        error.body is None ==> error@.body is None,
{
}

/// A report that a value could not be serialized quotes what the serializer's
/// error displays, and has neither status nor body, since nothing was sent.
pub proof fn law_serialization_report_quotes_the_error(
    error: RequestError,
    err: serde_json::Error,
)
    requires
        error.reports_serialization(err),
    ensures
        error.status is None,
        error.body is None,
        exists|shown: String| #[trigger]
            vstd::string::to_string_from_display_ensures(&err, shown) && error.message@
                == "Serialization failed: "@ + shown@,
{
}

} // verus!
