use zero_to_prod::ids::{format_request_id, fresh_uuid};

#[test]
fn zero_formats_as_all_zero_groups() {
    let text = format_request_id(0);
    assert_eq!(text, b"00000000-0000-0000-0000-000000000000".to_vec());
}

#[test]
fn the_largest_identifier_formats_as_all_f() {
    let text = format_request_id(u128::MAX);
    assert_eq!(text, b"ffffffff-ffff-ffff-ffff-ffffffffffff".to_vec());
}

#[test]
fn digits_come_out_most_significant_first() {
    let text = format_request_id(0x123456789abcdef0123456789abcdef0u128);
    assert_eq!(text, b"12345678-9abc-def0-1234-56789abcdef0".to_vec());
    let text = format_request_id(0xabu128);
    assert_eq!(text, b"00000000-0000-0000-0000-0000000000ab".to_vec());
}

#[test]
fn fresh_identifiers_differ() {
    let a = fresh_uuid();
    let b = fresh_uuid();
    assert_ne!(a, b);
}
