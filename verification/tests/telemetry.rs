use zero_to_prod::init_subscriber;

#[test]
fn the_subscriber_installs_once_and_later_calls_are_a_no_op() {
    let first = init_subscriber("test".to_string(), "debug".to_string());
    assert!(first);
    let second = init_subscriber("test".to_string(), "debug".to_string());
    assert!(!second);
}
