use hamlet::util::identifier_to_tag_name;

#[test]
fn camel_case_becomes_hyphenated() {
    assert_eq!(identifier_to_tag_name("dataFoo"), "data-foo");
    assert_eq!(identifier_to_tag_name("dataFooBar"), "data-foo-bar");
}

#[test]
fn plain_identifiers_are_unchanged() {
    assert_eq!(identifier_to_tag_name("id"), "id");
    assert_eq!(identifier_to_tag_name(""), "");
    assert_eq!(identifier_to_tag_name("already-hyphenated"), "already-hyphenated");
}

#[test]
fn leading_and_repeated_capitals() {
    assert_eq!(identifier_to_tag_name("Foo"), "-foo");
    assert_eq!(identifier_to_tag_name("XYZ"), "-x-y-z");
}
