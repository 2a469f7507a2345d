//! Routing, request correlation, and the request state machine.
//!
//! A caller that actually serves HTTP drives one request through here: it
//! hands `begin_request` the method, path, correlation header and body as
//! plain values; when the answer is `NeedInsert` it performs the one store
//! insert described there and hands the outcome to `finish_insert`. Every
//! reply carries a correlation identifier, echoing the client's when one
//! was supplied.

use vstd::prelude::*;
use crate::form::{
    form_accepts, form_name, form_email, utf8_lossy_of, chars_of_ascii, ascii_seq, bytes_eq,
};
use crate::ids::{fresh_uuid, format_request_id};
use crate::routes::{health_check, subscribe, subscribe_completion, NewSubscription, SubscribeStep};

verus! {

/// One inbound request, as plain values.
pub struct Request {
    pub method: Vec<u8>,
    pub path: Vec<u8>,
    /// The correlation header the client supplied, if any.
    pub request_id: Option<Vec<u8>>,
    pub body: Vec<u8>,
}

/// One outbound reply: status, body, and the correlation identifier that
/// must be sent back as a header.
pub struct HttpReply {
    pub status: u16,
    pub body: Vec<u8>,
    pub request_id: Vec<u8>,
}

/// An insert the store still has to perform before the reply exists.
pub struct PendingInsert {
    pub row: NewSubscription,
    pub request_id: Vec<u8>,
}

/// Where a request stands after dispatch: answered, or waiting on exactly
/// one store insert.
pub enum Step {
    Done(HttpReply),
    NeedInsert(PendingInsert),
}

/// The bytes of the method `GET`.
pub open spec fn method_get() -> Seq<u8> {
    seq![0x47u8, 0x45u8, 0x54u8]
}

/// The bytes of the method `POST`.
pub open spec fn method_post() -> Seq<u8> {
    seq![0x50u8, 0x4fu8, 0x53u8, 0x54u8]
}

/// The bytes of the path `/health_check`.
pub open spec fn health_path() -> Seq<u8> {
    seq![
        0x2fu8,
        0x68u8,
        0x65u8,
        0x61u8,
        0x6cu8,
        0x74u8,
        0x68u8,
        0x5fu8,
        0x63u8,
        0x68u8,
        0x65u8,
        0x63u8,
        0x6bu8,
    ]
}

/// The bytes of the path `/subscriptions`.
pub open spec fn subscriptions_path() -> Seq<u8> {
    seq![
        0x2fu8,
        0x73u8,
        0x75u8,
        0x62u8,
        0x73u8,
        0x63u8,
        0x72u8,
        0x69u8,
        0x70u8,
        0x74u8,
        0x69u8,
        0x6fu8,
        0x6eu8,
        0x73u8,
    ]
}

/// The registered routes, and everything else.
pub enum Route {
    HealthCheck,
    Subscriptions,
    NotFound,
}

/// Which handler a method and path pair reaches.
pub open spec fn route_of(method: Seq<u8>, path: Seq<u8>) -> Route {
    if method == method_get() && path == health_path() {
        Route::HealthCheck
    } else if method == method_post() && path == subscriptions_path() {
        Route::Subscriptions
    } else {
        Route::NotFound
    }
}

/// Dispatch a method and path to a route, as `route_of` describes.
pub fn dispatch(method: &Vec<u8>, path: &Vec<u8>) -> (r: Route)
    ensures
        r == route_of(method@, path@),
{
    let get: Vec<u8> = vec![0x47u8, 0x45u8, 0x54u8];
    let post: Vec<u8> = vec![0x50u8, 0x4fu8, 0x53u8, 0x54u8];
    let health: Vec<u8> = vec![
        0x2fu8,
        0x68u8,
        0x65u8,
        0x61u8,
        0x6cu8,
        0x74u8,
        0x68u8,
        0x5fu8,
        0x63u8,
        0x68u8,
        0x65u8,
        0x63u8,
        0x6bu8,
    ];
    let subs: Vec<u8> = vec![
        0x2fu8,
        0x73u8,
        0x75u8,
        0x62u8,
        0x73u8,
        0x63u8,
        0x72u8,
        0x69u8,
        0x70u8,
        0x74u8,
        0x69u8,
        0x6fu8,
        0x6eu8,
        0x73u8,
    ];
    proof {
        assert(get@ =~= method_get());
        assert(post@ =~= method_post());
        assert(health@ =~= health_path());
        assert(subs@ =~= subscriptions_path());
    }
    if bytes_eq(method, &get) && bytes_eq(path, &health) {
        Route::HealthCheck
    } else if bytes_eq(method, &post) && bytes_eq(path, &subs) {
        Route::Subscriptions
    } else {
        Route::NotFound
    }
}

/// Whether a reply's correlation identifier is faithful to what the client
/// supplied: when a header came in, the same value goes out.
pub open spec fn echoes(supplied: Option<Vec<u8>>, rid: Seq<u8>) -> bool {
    match supplied {
        Some(v) => rid == v@,
        None => true,
    }
}

/// The correlation identifier of a request: the client's when one was
/// supplied, a freshly generated hyphenated identifier otherwise.
fn ensure_request_id(supplied: Option<Vec<u8>>) -> (r: Vec<u8>)
    ensures
        echoes(supplied, r@),
        supplied is None ==> r@.len() == 36,
{
    match supplied {
        Some(v) => v,
        None => format_request_id(fresh_uuid()),
    }
}

/// Take one inbound request through correlation and dispatch.
///
/// The liveness probe is answered at once with an empty success, whatever
/// headers or body came with it. A subscription submission is either
/// rejected at once — nothing is ever stored for it — or turned into
/// exactly one pending insert carrying the submitted name and email
/// verbatim. Anything else is answered not-found. Every outcome carries the
/// request's correlation identifier.
pub fn begin_request(req: Request) -> (r: Step)
    ensures
        route_of(req.method@, req.path@) is HealthCheck ==> r is Done && r->Done_0.status == 200
            && r->Done_0.body@.len() == 0,
        route_of(req.method@, req.path@) is NotFound ==> r is Done && r->Done_0.status == 404
            && r->Done_0.body@.len() == 0,
        route_of(req.method@, req.path@) is Subscriptions ==> {
            &&& r is NeedInsert <==> form_accepts(req.body@)
            &&& (r is Done ==> r->Done_0.status == 422 && r->Done_0.body@.len() == 0)
            &&& (r is NeedInsert ==> r->NeedInsert_0.row.name@ == utf8_lossy_of(
                form_name(req.body@),
            ) && r->NeedInsert_0.row.email@ == utf8_lossy_of(form_email(req.body@)))
            &&& (r is NeedInsert && ascii_seq(form_name(req.body@))
                ==> r->NeedInsert_0.row.name@ == chars_of_ascii(form_name(req.body@)))
            &&& (r is NeedInsert && ascii_seq(form_email(req.body@))
                ==> r->NeedInsert_0.row.email@ == chars_of_ascii(form_email(req.body@)))
        },
        r is Done ==> echoes(req.request_id, r->Done_0.request_id@),
        r is NeedInsert ==> echoes(req.request_id, r->NeedInsert_0.request_id@),
{
    let Request { method, path, request_id, body } = req;
    let rid = ensure_request_id(request_id);
    match dispatch(&method, &path) {
        Route::HealthCheck => {
            let resp = health_check();
            Step::Done(HttpReply { status: resp.status, body: resp.body, request_id: rid })
        },
        Route::Subscriptions => {
            match subscribe(&body) {
                SubscribeStep::Insert(row) => Step::NeedInsert(
                    PendingInsert { row, request_id: rid },
                ),
                SubscribeStep::Reject(resp) => Step::Done(
                    HttpReply { status: resp.status, body: resp.body, request_id: rid },
                ),
            }
        },
        Route::NotFound => Step::Done(
            HttpReply { status: 404, body: Vec::new(), request_id: rid },
        ),
    }
}

/// Turn the store's verdict on a pending insert into the reply: an empty
/// success when the row went in, an opaque server error otherwise, carrying
/// the same correlation identifier either way.
pub fn finish_insert(pending: PendingInsert, insert_ok: bool) -> (r: HttpReply)
    ensures
        r.status == (if insert_ok {
            200u16
        } else {
            500u16
        }),
        r.body@.len() == 0,
        r.request_id == pending.request_id,
{
    let resp = subscribe_completion(insert_ok);
    HttpReply { status: resp.status, body: resp.body, request_id: pending.request_id }
}

} // verus!
