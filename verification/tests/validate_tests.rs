use actor_system::validate::{validate_name, InvalidName};

#[test]
fn letters_digits_underscore_and_hyphen_are_valid() {
    assert_eq!(validate_name("a"), Ok(()));
    assert_eq!(validate_name("Actor_1-b"), Ok(()));
    assert_eq!(validate_name("0"), Ok(()));
    assert_eq!(validate_name("_"), Ok(()));
    assert_eq!(validate_name("-"), Ok(()));
    assert_eq!(validate_name("azAZ09"), Ok(()));
}

#[test]
fn empty_name_is_invalid() {
    assert_eq!(validate_name(""), Err(InvalidName { name: "".to_string() }));
}

#[test]
fn other_characters_are_invalid() {
    for name in ["a/b", "a b", "a.b", "*", "a@", "é", "a\n", "/", "a:b", "[", "`", "{"] {
        assert_eq!(validate_name(name), Err(InvalidName { name: name.to_string() }));
    }
}
