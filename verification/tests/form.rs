use zero_to_prod::form::{parse_form, FormData, FormError};

fn parse(body: &str) -> Result<FormData, FormError> {
    parse_form(&body.as_bytes().to_vec())
}

#[test]
fn plain_fields_are_taken_verbatim() {
    let form = parse("name=marcin&email=mail%40marszy.com").unwrap();
    assert_eq!(form.name, "marcin");
    assert_eq!(form.email, "mail@marszy.com");
}

#[test]
fn field_order_does_not_matter() {
    let form = parse("email=a%40b.c&name=zed").unwrap();
    assert_eq!(form.name, "zed");
    assert_eq!(form.email, "a@b.c");
}

#[test]
fn percent_escapes_decode_to_bytes() {
    let form = parse("name=le%20guin%2C%20ursula&email=x%3D%26y").unwrap();
    assert_eq!(form.name, "le guin, ursula");
    assert_eq!(form.email, "x=&y");
}

#[test]
fn plus_decodes_to_a_space_but_an_escaped_plus_stays() {
    let form = parse("name=ursula+le+guin&email=a%2Bb").unwrap();
    assert_eq!(form.name, "ursula le guin");
    assert_eq!(form.email, "a+b");
}

#[test]
fn a_stray_percent_stands_for_itself() {
    let form = parse("name=100%&email=a%2x").unwrap();
    assert_eq!(form.name, "100%");
    assert_eq!(form.email, "a%2x");
}

#[test]
fn uppercase_hex_escapes_decode_too() {
    let form = parse("name=a%2Fb&email=a%2fb").unwrap();
    assert_eq!(form.name, "a/b");
    assert_eq!(form.email, "a/b");
}

#[test]
fn multibyte_escapes_decode_to_text() {
    let form = parse("name=%C5%BBak&email=zak%40marszy.com").unwrap();
    assert_eq!(form.name, "\u{017b}ak");
    assert_eq!(form.email, "zak@marszy.com");
}

#[test]
fn unknown_fields_are_ignored() {
    let form = parse("spam=1&name=a&junk&email=b&more=2").unwrap();
    assert_eq!(form.name, "a");
    assert_eq!(form.email, "b");
}

#[test]
fn empty_segments_are_skipped() {
    let form = parse("&&name=a&&email=b&").unwrap();
    assert_eq!(form.name, "a");
    assert_eq!(form.email, "b");
}

#[test]
fn a_field_without_a_value_is_present_and_empty() {
    let form = parse("name&email=b").unwrap();
    assert_eq!(form.name, "");
    assert_eq!(form.email, "b");
    let form = parse("name=&email=b").unwrap();
    assert_eq!(form.name, "");
}

#[test]
fn missing_fields_are_rejected() {
    assert!(matches!(parse("name=a"), Err(FormError::FieldMissingOrRepeated)));
    assert!(matches!(parse("email=b"), Err(FormError::FieldMissingOrRepeated)));
    assert!(matches!(parse(""), Err(FormError::FieldMissingOrRepeated)));
    assert!(matches!(parse("names=a&emails=b"), Err(FormError::FieldMissingOrRepeated)));
}

#[test]
fn repeated_fields_are_rejected() {
    assert!(parse("name=a&name=b&email=c").is_err());
    assert!(parse("name=a&email=b&email=c").is_err());
    assert!(parse("name=a&name=a&email=b").is_err());
}

#[test]
fn keys_decode_before_they_are_matched() {
    let form = parse("na%6de=a&email=b").unwrap();
    assert_eq!(form.name, "a");
}
