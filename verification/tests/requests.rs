use zero_to_prod::server::{begin_request, finish_insert, Request, Step};

fn bytes(s: &str) -> Vec<u8> {
    s.as_bytes().to_vec()
}

fn request(method: &str, path: &str, body: &str) -> Request {
    Request {
        method: bytes(method),
        path: bytes(path),
        request_id: None,
        body: bytes(body),
    }
}

#[test]
fn test_health_check() {
    match begin_request(request("GET", "/health_check", "")) {
        Step::Done(reply) => {
            assert!(reply.status == 200);
            assert_eq!(0, reply.body.len());
        }
        Step::NeedInsert(_) => panic!("the probe needs no store"),
    }
}

#[test]
fn health_check_ignores_request_body() {
    match begin_request(request("GET", "/health_check", "name=marcin")) {
        Step::Done(reply) => {
            assert_eq!(200, reply.status);
            assert_eq!(0, reply.body.len());
        }
        Step::NeedInsert(_) => panic!("the probe needs no store"),
    }
}

#[test]
fn subscribe_returns_a_200_for_valid_form_data() {
    let body = "name=marcin&email=mail%40marszy.com";
    match begin_request(request("POST", "/subscriptions", body)) {
        Step::NeedInsert(pending) => {
            assert_eq!(pending.row.email, "mail@marszy.com");
            assert_eq!(pending.row.name, "marcin");
            let reply = finish_insert(pending, true);
            assert_eq!(200, reply.status);
            assert_eq!(0, reply.body.len());
        }
        Step::Done(_) => panic!("a valid submission must reach the store"),
    }
}

#[test]
fn subscribe_returns_a_422_when_data_is_missing() {
    let test_cases = vec![
        ("name=marcin", "missing mail"),
        ("email=mail%40marszy.com", "missing name"),
        ("", "missing both name and email"),
    ];
    for (invalid_body, error_message) in test_cases {
        match begin_request(request("POST", "/subscriptions", invalid_body)) {
            Step::Done(reply) => {
                assert_eq!(
                    422, reply.status,
                    "The API did not reject the payload that was {}",
                    error_message
                );
                assert_eq!(0, reply.body.len());
            }
            Step::NeedInsert(_) => {
                panic!("a row was about to be stored for {}", error_message)
            }
        }
    }
}

#[test]
fn subscribe_maps_storage_failure_to_a_500() {
    let body = "name=marcin&email=mail%40marszy.com";
    match begin_request(request("POST", "/subscriptions", body)) {
        Step::NeedInsert(pending) => {
            let reply = finish_insert(pending, false);
            assert_eq!(500, reply.status);
            assert_eq!(0, reply.body.len());
        }
        Step::Done(_) => panic!("a valid submission must reach the store"),
    }
}

#[test]
fn unmatched_requests_get_a_404() {
    match begin_request(request("GET", "/nowhere", "")) {
        Step::Done(reply) => assert_eq!(404, reply.status),
        Step::NeedInsert(_) => panic!("no store is involved"),
    }
    match begin_request(request("POST", "/health_check", "")) {
        Step::Done(reply) => assert_eq!(404, reply.status),
        Step::NeedInsert(_) => panic!("no store is involved"),
    }
}

#[test]
fn responses_echo_a_supplied_request_id() {
    let mut req = request("GET", "/health_check", "");
    req.request_id = Some(bytes("caller-chose-this"));
    match begin_request(req) {
        Step::Done(reply) => assert_eq!(bytes("caller-chose-this"), reply.request_id),
        Step::NeedInsert(_) => panic!("the probe needs no store"),
    }

    let mut req = request("POST", "/subscriptions", "name=a&email=b");
    req.request_id = Some(bytes("id-123"));
    match begin_request(req) {
        Step::NeedInsert(pending) => {
            let reply = finish_insert(pending, true);
            assert_eq!(bytes("id-123"), reply.request_id);
        }
        Step::Done(_) => panic!("a valid submission must reach the store"),
    }

    let mut req = request("POST", "/subscriptions", "name=a");
    req.request_id = Some(bytes("id-456"));
    match begin_request(req) {
        Step::Done(reply) => {
            assert_eq!(422, reply.status);
            assert_eq!(bytes("id-456"), reply.request_id);
        }
        Step::NeedInsert(_) => panic!("no row may be stored"),
    }
}

#[test]
fn responses_get_a_fresh_request_id_when_none_came() {
    match begin_request(request("GET", "/health_check", "")) {
        Step::Done(reply) => {
            assert_eq!(36, reply.request_id.len());
            for (i, b) in reply.request_id.iter().enumerate() {
                if i == 8 || i == 13 || i == 18 || i == 23 {
                    assert_eq!(b'-', *b);
                } else {
                    assert!(b.is_ascii_hexdigit());
                    assert!(!b.is_ascii_uppercase());
                }
            }
        }
        Step::NeedInsert(_) => panic!("the probe needs no store"),
    }
}

#[test]
fn two_submissions_get_distinct_identifiers() {
    let body = "name=marcin&email=mail%40marszy.com";
    let first = match begin_request(request("POST", "/subscriptions", body)) {
        Step::NeedInsert(pending) => pending.row,
        Step::Done(_) => panic!("a valid submission must reach the store"),
    };
    let body = "name=ola&email=ola%40marszy.com";
    let second = match begin_request(request("POST", "/subscriptions", body)) {
        Step::NeedInsert(pending) => pending.row,
        Step::Done(_) => panic!("a valid submission must reach the store"),
    };
    assert_ne!(first.id, second.id);
    assert!(first.subscribed_at_micros > 0);
    assert!(second.subscribed_at_micros > 0);
}
