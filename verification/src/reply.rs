//! Reading the replies to the requests of [`crate::request`].

use crate::error::{error_text, RequestError};
use crate::http::Response;
use crate::request::PrimaryKeyResponse;
use crate::text::{concat_two, unsigned_text};
use vstd::prelude::*;

verus! {

/// What a result tells, its error taken by what the error tells.
pub open spec fn outcome<T>(result: Result<T, RequestError>) -> Result<T, crate::error::Failure> {
    match result {
        Ok(value) => Ok(value),
        Err(err) => Err(err@),
    }
}

/// What is made of a reply: the response when its status tells of success, the
/// failure otherwise. No reply at all is a network failure.
pub open spec fn checked(reply: Result<Response, String>) -> Result<
    Response,
    crate::error::Failure,
> {
    match reply {
        Ok(response) => if response.ok {
            Ok(response)
        } else {
            Err(
                crate::error::Failure {
                    message: "Request failed with status "@ + crate::text::decimal(
                        response.status as nat,
                    ),
                    status: Some(response.status),
                    body: response.body_text(),
                },
            )
        },
        Err(message) => Err(
            crate::error::Failure { message: message@, status: None, body: None },
        ),
    }
}

/// A reply counts as a success exactly when a response came whose status tells
/// of success, and a failure carries a status exactly when a response came.
pub proof fn law_only_success_is_accepted(reply: Result<Response, String>)
    ensures
        checked(reply) is Ok <==> reply is Ok && reply->Ok_0.ok,
        checked(reply) matches Ok(response) ==> reply == Ok::<Response, String>(response),
        checked(reply) matches Err(failure) ==> (failure.status is Some <==> reply is Ok),
        checked(reply) matches Err(failure) ==> (failure.status matches Some(status) ==> status
            == reply->Ok_0.status),
{
}

/// The response of a reply that tells of success, or a [`RequestError`]
/// describing the network or HTTP failure.
pub fn check_response(reply: Result<Response, String>) -> (result: Result<Response, RequestError>)
    ensures
        outcome(result) == checked(reply),
{
    match reply {
        Ok(response) => {
            if response.ok {
                return Ok(response);
            }
            let body = match response.text() {
                Some(text) => Some(text.to_owned()),
                None => None,
            };
            let message = concat_two(
                "Request failed with status ",
                unsigned_text(response.status as u64).as_str(),
            );
            Err(RequestError::http(message, response.status, body))
        },
        Err(message) => Err(RequestError::network(message)),
    }
}

/// Whether `result` is what a response of this status and body comes to, when
/// parsing the body gave `parsed`: the rows, or an error that quotes the body.
pub open spec fn interpreted<R>(
    parsed: Result<Vec<R>, serde_json::Error>,
    status: u16,
    body: Seq<char>,
    result: Result<Vec<R>, RequestError>,
) -> bool {
    match parsed {
        Ok(rows) => result == Ok::<Vec<R>, RequestError>(rows),
        Err(err) => result is Err && exists|shown: Seq<char>|
            {
                &&& #[trigger] crate::error::displays_as(&err, shown)
                &&& result->Err_0@ == (crate::error::Failure {
                    message: "Failed to parse response: "@ + shown,
                    status: Some(status),
                    body: Some(body),
                })
            },
    }
}

/// The rows of a response whose body was parsed, or what went wrong.
pub fn interpret<R>(
    parsed: Result<Vec<R>, serde_json::Error>,
    status: u16,
    body: &str,
) -> (result: Result<Vec<R>, RequestError>)
    ensures
        interpreted(parsed, status, body@, result),
{
    match parsed {
        Ok(rows) => Ok(rows),
        Err(err) => {
            let shown = error_text(&err);
            let message = concat_two("Failed to parse response: ", shown.as_str());
            Err(RequestError::http(message, status, Some(body.to_owned())))
        },
    }
}

/// Whether `parse` takes the text of this response, when it has one.
pub open spec fn takes_body<R, P: FnOnce(&str) -> Result<Vec<R>, serde_json::Error>>(
    parse: P,
    response: Response,
) -> bool {
    forall|body: &str|
        Some(body@) == response.body_text() ==> #[trigger] call_requires(parse, (body,))
}

/// Whether `parse` makes `parsed` of a text.
pub open spec fn parses<R, P: FnOnce(&str) -> Result<Vec<R>, serde_json::Error>>(
    parse: P,
    text: Seq<char>,
    parsed: Result<Vec<R>, serde_json::Error>,
) -> bool {
    exists|body: &str| body@ == text && #[trigger] call_ensures(parse, (body,), parsed)
}

/// Whether `result` is what the rows of a successful response come to.
pub open spec fn rows_read<R, P: FnOnce(&str) -> Result<Vec<R>, serde_json::Error>>(
    parse: P,
    response: Response,
    result: Result<Vec<R>, RequestError>,
) -> bool {
    match response.body_text() {
        None => outcome(result) == Err::<Vec<R>, crate::error::Failure>(
            crate::error::Failure {
                message: "Response body was not valid UTF-8"@,
                status: Some(response.status),
                body: None,
            },
        ),
        Some(text) => exists|parsed: Result<Vec<R>, serde_json::Error>|
            {
                &&& #[trigger] parses(parse, text, parsed)
                &&& interpreted(parsed, response.status, text, result)
            },
    }
}

/// Read the rows of a successful response.
pub fn decode_rows<R, P>(response: &Response, parse: P) -> (result: Result<
    Vec<R>,
    RequestError,
>) where P: FnOnce(&str) -> Result<Vec<R>, serde_json::Error>
    requires
        takes_body(parse, *response),
    ensures
        rows_read(parse, *response, result),
{
    let body = match response.text() {
        Some(body) => body,
        None => {
            return Err(
                RequestError::http("Response body was not valid UTF-8", response.status, None),
            );
        },
    };
    let parsed = parse(body);
    assert(parses(parse, response.body_text()->0, parsed));
    interpret(parsed, response.status, body)
}

/// The keys of a list of rows.
pub open spec fn ids(rows: Seq<PrimaryKeyResponse>) -> Seq<i64> {
    rows.map_values(|row: PrimaryKeyResponse| row.id)
}

/// The keys that a body carries, when parsing it gave `parsed`: none when it
/// could not be parsed.
pub open spec fn keys_of(parsed: Result<Vec<PrimaryKeyResponse>, serde_json::Error>) -> Seq<i64> {
    match parsed {
        Ok(rows) => ids(rows@),
        Err(_) => Seq::empty(),
    }
}

/// The keys of the rows that a body was parsed into, none when it could not be
/// parsed.
pub fn parsed_keys(parsed: Result<Vec<PrimaryKeyResponse>, serde_json::Error>) -> (keys: Vec<i64>)
    ensures
        keys@ == keys_of(parsed),
{
    let mut keys: Vec<i64> = Vec::new();
    if let Ok(rows) = &parsed {
        let ghost all = ids(rows@);
        for i in 0..rows.len()
            invariant
                all == ids(rows@),
                keys@ == all.take(i as int),
        {
            keys.push(rows[i].id);
            assert(all.take(i + 1) =~= all.take(i as int).push(all[i as int]));
        }
        assert(all.take(rows.len() as int) =~= all);
    }
    keys
}

/// Whether `keys` are the primary keys of a response: none when its body is no
/// text or no list of rows with keys.
pub open spec fn keys_read<P: FnOnce(&str) -> Result<Vec<PrimaryKeyResponse>, serde_json::Error>>(
    parse: P,
    response: Response,
    keys: Seq<i64>,
) -> bool {
    match response.body_text() {
        None => keys == Seq::<i64>::empty(),
        Some(text) => exists|parsed: Result<Vec<PrimaryKeyResponse>, serde_json::Error>|
            #[trigger] parses(parse, text, parsed) && keys == keys_of(parsed),
    }
}

/// Primary keys of the returned rows, empty if the body carries none.
pub fn primary_keys<P>(response: &Response, parse: P) -> (keys: Vec<i64>) where
    P: FnOnce(&str) -> Result<Vec<PrimaryKeyResponse>, serde_json::Error>,

    requires
        takes_body(parse, *response),
    ensures
        keys_read(parse, *response, keys@),
{
    match response.text() {
        Some(body) => {
            let parsed = parse(body);
            assert(parses(parse, response.body_text()->0, parsed));
            parsed_keys(parsed)
        },
        None => Vec::new(),
    }
}

/// The first of a list of keys.
pub open spec fn first_key(keys: Seq<i64>) -> Option<i64> {
    if keys.len() > 0 {
        Some(keys[0])
    } else {
        None
    }
}

/// The first of a list of keys, if there is one.
pub fn first_of(keys: &Vec<i64>) -> (key: Option<i64>)
    ensures
        key == first_key(keys@),
{
    if keys.len() > 0 {
        Some(keys[0])
    } else {
        None
    }
}

/// Primary key of the first returned row, if the body carries one.
pub fn first_primary_key<P>(response: &Response, parse: P) -> (key: Option<i64>) where
    P: FnOnce(&str) -> Result<Vec<PrimaryKeyResponse>, serde_json::Error>,

    requires
        takes_body(parse, *response),
    ensures
        exists|keys: Seq<i64>|
            #[trigger] keys_read(parse, *response, keys) && key == first_key(keys),
{
    let keys = primary_keys(response, parse);
    first_of(&keys)
}

/// The outcome of [`crate::request::execute_write`], from the reply.
pub fn complete_write(reply: Result<Response, String>) -> (result: Result<(), RequestError>)
    ensures
        match checked(reply) {
            Ok(_) => result is Ok,
            Err(failure) => outcome(result) == Err::<(), crate::error::Failure>(failure),
        },
{
    match check_response(reply) {
        Ok(_) => Ok(()),
        Err(err) => Err(err),
    }
}

/// Whether `parse` takes the text of the response that a reply brings, if it
/// brings one that tells of success.
pub open spec fn takes_reply<R, P: FnOnce(&str) -> Result<Vec<R>, serde_json::Error>>(
    parse: P,
    reply: Result<Response, String>,
) -> bool {
    checked(reply) matches Ok(response) ==> takes_body(parse, response)
}

/// The outcome of [`crate::request::execute_write_returning`] and
/// [`crate::request::execute_select`], from the reply.
pub fn complete_rows<R, P>(reply: Result<Response, String>, parse: P) -> (result: Result<
    Vec<R>,
    RequestError,
>) where P: FnOnce(&str) -> Result<Vec<R>, serde_json::Error>
    requires
        takes_reply(parse, reply),
    ensures
        match checked(reply) {
            Ok(response) => rows_read(parse, response, result),
            Err(failure) => outcome(result) == Err::<Vec<R>, crate::error::Failure>(failure),
        },
{
    match check_response(reply) {
        Ok(response) => decode_rows(&response, parse),
        Err(err) => Err(err),
    }
}

/// The outcome of writing a single row, from the reply.
pub fn complete_one<P>(reply: Result<Response, String>, parse: P) -> (result: Result<
    Option<i64>,
    RequestError,
>) where P: FnOnce(&str) -> Result<Vec<PrimaryKeyResponse>, serde_json::Error>
    requires
        takes_reply(parse, reply),
    ensures
        match checked(reply) {
            Ok(response) => result is Ok && exists|keys: Seq<i64>|
                #[trigger] keys_read(parse, response, keys) && result->Ok_0 == first_key(keys),
            Err(failure) => outcome(result) == Err::<Option<i64>, crate::error::Failure>(failure),
        },
{
    match check_response(reply) {
        Ok(response) => Ok(first_primary_key(&response, parse)),
        Err(err) => Err(err),
    }
}

/// The outcome of writing several rows, from the reply.
pub fn complete_many<P>(reply: Result<Response, String>, parse: P) -> (result: Result<
    Vec<i64>,
    RequestError,
>) where P: FnOnce(&str) -> Result<Vec<PrimaryKeyResponse>, serde_json::Error>
    requires
        takes_reply(parse, reply),
    ensures
        match checked(reply) {
            Ok(response) => result is Ok && keys_read(parse, response, result->Ok_0@),
            Err(failure) => outcome(result) == Err::<Vec<i64>, crate::error::Failure>(failure),
        },
{
    match check_response(reply) {
        Ok(response) => Ok(primary_keys(&response, parse)),
        Err(err) => Err(err),
    }
}

/// The outcome of updating a row, from the reply: no new primary key.
pub fn complete_update(reply: Result<Response, String>) -> (result: Result<
    Option<i64>,
    RequestError,
>)
    ensures
        match checked(reply) {
            Ok(_) => result == Ok::<Option<i64>, RequestError>(None),
            Err(failure) => outcome(result) == Err::<Option<i64>, crate::error::Failure>(failure),
        },
{
    match check_response(reply) {
        Ok(_) => Ok(None),
        Err(err) => Err(err),
    }
}

/// The outcome of [`crate::request::execute_sync`], from the reply and from
/// whether the exchange inserts.
pub fn complete_sync<P>(reply: Result<Response, String>, was_insert: bool, parse: P) -> (result:
    Result<Option<i64>, RequestError>) where
    P: FnOnce(&str) -> Result<Vec<PrimaryKeyResponse>, serde_json::Error>,

    requires
        was_insert ==> takes_reply(parse, reply),
    ensures
        match checked(reply) {
            Ok(response) => {
                &&& result is Ok
                &&& !was_insert ==> result->Ok_0 is None
                &&& was_insert ==> exists|keys: Seq<i64>|
                    #[trigger] keys_read(parse, response, keys) && result->Ok_0 == first_key(keys)
            },
            Err(failure) => outcome(result) == Err::<Option<i64>, crate::error::Failure>(failure),
        },
{
    if was_insert {
        complete_one(reply, parse)
    } else {
        complete_update(reply)
    }
}

/// What a write brought back.
#[derive(Debug)]
pub struct WriteResponse<R> {
    /// The rows the server returned, empty when it was asked for none.
    pub rows: Vec<R>,
    /// The primary keys the server assigned, in the order they came back.
    pub primary_keys: Vec<i64>,
    /// HTTP status of the response.
    pub status: u16,
}

/// The outcome of a write that reports rows, keys and status, from the reply
/// and from whether rows were asked for.
pub fn complete_write_response<R, P, Q>(
    reply: Result<Response, String>,
    asked_for_rows: bool,
    parse_rows: P,
    parse_keys: Q,
) -> (result: Result<WriteResponse<R>, RequestError>) where
    P: FnOnce(&str) -> Result<Vec<R>, serde_json::Error>,
    Q: FnOnce(&str) -> Result<Vec<PrimaryKeyResponse>, serde_json::Error>,

    requires
        asked_for_rows ==> takes_reply(parse_rows, reply) && takes_reply(parse_keys, reply),
    ensures
        match checked(reply) {
            Ok(response) => {
                if asked_for_rows {
                    exists|rows: Result<Vec<R>, RequestError>|
                        {
                            &&& #[trigger] rows_read(parse_rows, response, rows)
                            &&& match rows {
                                Ok(rows) => {
                                    &&& result is Ok
                                    &&& result->Ok_0.rows == rows
                                    &&& keys_read(
                                        parse_keys,
                                        response,
                                        result->Ok_0.primary_keys@,
                                    )
                                    &&& result->Ok_0.status == response.status
                                },
                                Err(err) => result == Err::<WriteResponse<R>, RequestError>(err),
                            }
                        }
                } else {
                    &&& result is Ok
                    &&& result->Ok_0.rows@.len() == 0
                    &&& result->Ok_0.primary_keys@.len() == 0
                    &&& result->Ok_0.status == response.status
                }
            },
            Err(failure) => outcome(result) == Err::<WriteResponse<R>, crate::error::Failure>(
                failure,
            ),
        },
{
    let response = match check_response(reply) {
        Ok(response) => response,
        Err(err) => {
            return Err(err);
        },
    };
    if !asked_for_rows {
        return Ok(
            WriteResponse { rows: Vec::new(), primary_keys: Vec::new(), status: response.status },
        );
    }
    let read = decode_rows(&response, parse_rows);
    assert(rows_read(parse_rows, response, read));
    match read {
        Ok(rows) => {
            let keys = primary_keys(&response, parse_keys);
            Ok(WriteResponse { rows, primary_keys: keys, status: response.status })
        },
        Err(err) => Err(err),
    }
}

/// What a result tells is its value, or what its error holds.
pub proof fn law_a_result_tells_its_value_or_error<T>(result: Result<T, RequestError>)
    ensures
        result matches Ok(value) ==> outcome(result) == Ok::<T, crate::error::Failure>(value),
        result matches Err(err) ==> {
            &&& outcome(result) is Err
            &&& outcome(result)->Err_0.message == err.message@
            &&& outcome(result)->Err_0.status == err.status
            &&& err.body matches Some(body) ==> outcome(result)->Err_0.body == Some(body@)
            &&& err.body is None ==> outcome(result)->Err_0.body is None
        },
{
}

/// A response that does not tell of success is reported with its status, in
/// words and as a number, and with its body where that is text. No response is
/// reported with the message that came in its place.
pub proof fn law_failures_tell_what_came_back(response: Response, message: String)
    ensures
        !response.ok ==> {
            let failure = checked(Ok(response))->Err_0;
            &&& checked(Ok(response)) is Err
            &&& failure.message == "Request failed with status "@ + crate::text::decimal(
                response.status as nat,
            )
            &&& failure.status == Some(response.status)
            &&& failure.body is Some <==> vstd::utf8::valid_utf8(response.bytes@)
            &&& failure.body matches Some(text) ==> vstd::utf8::encode_utf8(text)
                == response.bytes@
        },
        response.ok ==> checked(Ok(response)) == Ok::<Response, crate::error::Failure>(response),
        checked(Err(message)) is Err,
        checked(Err(message))->Err_0.message == message@,
        checked(Err(message))->Err_0.status is None,
        checked(Err(message))->Err_0.body is None,
{
    crate::http::law_body_text_encodes_to_the_bytes(response);
}

/// Rows that were parsed come through as they are. Otherwise the error quotes
/// what the parser's error displays, with the status and the body.
pub proof fn law_parsed_rows_come_through<R>(
    parsed: Result<Vec<R>, serde_json::Error>,
    status: u16,
    body: Seq<char>,
    result: Result<Vec<R>, RequestError>,
)
    requires
        interpreted(parsed, status, body, result),
    ensures
        parsed matches Ok(rows) ==> result is Ok && result->Ok_0@ == rows@,
        parsed matches Err(err) ==> {
            &&& result is Err
            &&& result->Err_0.status == Some(status)
            &&& result->Err_0@.body == Some(body)
            &&& exists|shown: String| #[trigger]
                vstd::string::to_string_from_display_ensures(&err, shown)
                    && result->Err_0.message@ == "Failed to parse response: "@ + shown@
        },
{
}

/// Reading the rows of a response hands its text, and nothing else, to the
/// parser, and gives back the rows that it makes of it. A response whose body is
/// no text is an error.
pub proof fn law_rows_are_what_the_parser_makes<
    R,
    P: FnOnce(&str) -> Result<Vec<R>, serde_json::Error>,
>(parse: P, response: Response, result: Result<Vec<R>, RequestError>)
    requires
        rows_read(parse, response, result),
    ensures
        !vstd::utf8::valid_utf8(response.bytes@) ==> {
            &&& result is Err
            &&& result->Err_0.message@ == "Response body was not valid UTF-8"@
            &&& result->Err_0.status == Some(response.status)
            &&& result->Err_0.body is None
        },
        vstd::utf8::valid_utf8(response.bytes@) ==> exists|
            body: &str,
            parsed: Result<Vec<R>, serde_json::Error>,
        |
            {
                &&& #[trigger] call_ensures(parse, (body,), parsed)
                &&& vstd::utf8::encode_utf8(body@) == response.bytes@
                &&& result is Ok <==> parsed is Ok
                &&& parsed matches Ok(rows) ==> result->Ok_0@ == rows@
                &&& parsed is Err ==> result->Err_0.status == Some(response.status)
                    && result->Err_0@.body == Some(body@)
            },
{
    if vstd::utf8::valid_utf8(response.bytes@) {
        vstd::utf8::decode_utf8_encode_utf8(response.bytes@);
        let text = response.body_text()->0;
        let parsed = choose|parsed: Result<Vec<R>, serde_json::Error>|
            {
                &&& #[trigger] parses(parse, text, parsed)
                &&& interpreted(parsed, response.status, text, result)
            };
        let body = choose|body: &str|
            body@ == text && #[trigger] call_ensures(parse, (body,), parsed);
        assert(call_ensures(parse, (body,), parsed));
    }
}

/// The primary keys of a response are those of the rows that the parser makes of
/// its text, one for each and in order. There are none when the body is no text
/// or does not parse.
pub proof fn law_keys_are_those_of_the_rows<
    P: FnOnce(&str) -> Result<Vec<PrimaryKeyResponse>, serde_json::Error>,
>(parse: P, response: Response, keys: Seq<i64>)
    requires
        keys_read(parse, response, keys),
    ensures
        !vstd::utf8::valid_utf8(response.bytes@) ==> keys.len() == 0,
        vstd::utf8::valid_utf8(response.bytes@) ==> exists|
            body: &str,
            parsed: Result<Vec<PrimaryKeyResponse>, serde_json::Error>,
        |
            {
                &&& #[trigger] call_ensures(parse, (body,), parsed)
                &&& vstd::utf8::encode_utf8(body@) == response.bytes@
                &&& parsed is Err ==> keys.len() == 0
                &&& parsed matches Ok(rows) ==> keys.len() == rows@.len() && forall|i: int|
                    0 <= i < keys.len() ==> #[trigger] keys[i] == rows@[i].id
            },
{
    if vstd::utf8::valid_utf8(response.bytes@) {
        vstd::utf8::decode_utf8_encode_utf8(response.bytes@);
        let text = response.body_text()->0;
        let parsed = choose|parsed: Result<Vec<PrimaryKeyResponse>, serde_json::Error>| #[trigger]
            parses(parse, text, parsed) && keys == keys_of(parsed);
        let body = choose|body: &str|
            body@ == text && #[trigger] call_ensures(parse, (body,), parsed);
        assert(call_ensures(parse, (body,), parsed));
    }
}

/// The keys of parsed rows are theirs, one for each and in order.
pub proof fn law_parsed_keys_are_those_of_the_rows(
    parsed: Result<Vec<PrimaryKeyResponse>, serde_json::Error>,
)
    ensures
        parsed is Err ==> keys_of(parsed).len() == 0,
        parsed matches Ok(rows) ==> keys_of(parsed).len() == rows@.len(),
        parsed matches Ok(rows) ==> forall|i: int|
            0 <= i < rows@.len() ==> #[trigger] keys_of(parsed)[i] == rows@[i].id,
{
}

/// The first key is the one that came back first, if any did.
pub proof fn law_first_key_came_back_first(keys: Seq<i64>)
    ensures
        keys.len() == 0 ==> first_key(keys) is None,
        keys.len() > 0 ==> first_key(keys) == Some(keys[0]),
{
}

/// A parser that takes any text takes the reply.
pub proof fn law_any_reply_can_be_parsed<
    R,
    P: FnOnce(&str) -> Result<Vec<R>, serde_json::Error>,
>(parse: P, response: Response, reply: Result<Response, String>)
    requires
        forall|body: &str| #[trigger] call_requires(parse, (body,)),
    ensures
        takes_body(parse, response),
        takes_reply(parse, reply),
{
}

} // verus!
