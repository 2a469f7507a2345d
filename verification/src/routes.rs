//! The two request handlers: the liveness probe and subscription intake.

use vstd::prelude::*;
use crate::form::{
    parse_form, form_accepts, form_name, form_email, utf8_lossy_of, chars_of_ascii, ascii_seq,
};
use crate::ids::fresh_uuid;

verus! {

/// A handler's answer: a status code and a body.
pub struct Response {
    pub status: u16,
    pub body: Vec<u8>,
}

/// The liveness probe: always an empty success, whatever the request held.
pub fn health_check() -> (r: Response)
    ensures
        r.status == 200,
        r.body@.len() == 0,
{
    Response { status: 200, body: Vec::new() }
}

/// A subscription row to be stored: a fresh identifier, the submitted name
/// and email taken verbatim, and the moment of intake in microseconds since
/// the Unix epoch.
pub struct NewSubscription {
    pub id: u128,
    pub name: String,
    pub email: String,
    pub subscribed_at_micros: i64,
}

/// Relies on `chrono::Utc::now` and `DateTime::timestamp_micros`: the
/// current UTC time as microseconds since the Unix epoch. The value depends
/// on the clock, so nothing is promised of it.
#[verifier::external_body]
fn now_micros() -> (r: i64) {
    chrono::Utc::now().timestamp_micros()
}

/// What the subscription handler decided: either reject the submission
/// outright, or store exactly this one row.
pub enum SubscribeStep {
    Reject(Response),
    Insert(NewSubscription),
}

/// The subscription intake handler, up to the store: parse the submitted
/// body, and either reject it before any record exists, or shape the one
/// row to insert, with a fresh identifier and the current time.
pub fn subscribe(body: &Vec<u8>) -> (r: SubscribeStep)
    ensures
        r is Insert <==> form_accepts(body@),
        r is Insert ==> r->Insert_0.name@ == utf8_lossy_of(form_name(body@)),
        r is Insert ==> r->Insert_0.email@ == utf8_lossy_of(form_email(body@)),
        r is Insert && ascii_seq(form_name(body@)) ==> r->Insert_0.name@ == chars_of_ascii(
            form_name(body@),
        ),
        r is Insert && ascii_seq(form_email(body@)) ==> r->Insert_0.email@ == chars_of_ascii(
            form_email(body@),
        ),
        r is Reject ==> r->Reject_0.status == 422 && r->Reject_0.body@.len() == 0,
{
    match parse_form(body) {
        Ok(form) => SubscribeStep::Insert(
            NewSubscription {
                id: fresh_uuid(),
                name: form.name,
                email: form.email,
                subscribed_at_micros: now_micros(),
            },
        ),
        Err(_) => SubscribeStep::Reject(Response { status: 422, body: Vec::new() }),
    }
}

/// The answer once the store has spoken: an empty success when the insert
/// went through, an opaque server error otherwise.
pub fn subscribe_completion(insert_ok: bool) -> (r: Response)
    ensures
        r.status == (if insert_ok {
            200u16
        } else {
            500u16
        }),
        r.body@.len() == 0,
{
    if insert_ok {
        Response { status: 200, body: Vec::new() }
    } else {
        Response { status: 500, body: Vec::new() }
    }
}

} // verus!
