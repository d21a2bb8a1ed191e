use chat_relay::greeting::greet;

#[test]
fn greets_by_name() {
    assert_eq!(greet("World"), "Hello World!");
}

#[test]
fn greets_the_empty_name() {
    assert_eq!(greet(""), "Hello !");
}

#[test]
fn greets_names_beyond_ascii() {
    assert_eq!(greet("世界"), "Hello 世界!");
    assert_eq!(greet("Ann Lee"), "Hello Ann Lee!");
}
