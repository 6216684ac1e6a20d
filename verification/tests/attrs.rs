use hamlet::attr::Attribute;
use hamlet::attr::AttributeList;
use hamlet::Token;

fn rendered(t: &Token) -> String {
    let mut out = String::new();
    t.write_to(&mut out);
    out
}

#[test]
fn empty_attr_set() {
    assert_eq!(AttributeList::empty().into_vec(), Vec::<Attribute>::new());
}

#[test]
fn single_attr() {
    assert_eq!(
        AttributeList::from_vec(vec![Attribute::new("id", "foo")]).into_vec(),
        vec![Attribute::new("id", "foo")]
    );
}

#[test]
fn multi_attr() {
    assert_eq!(
        AttributeList::from_vec(vec![
            Attribute::new("id", "foo"),
            Attribute::new("class", "bar"),
        ])
        .into_vec(),
        vec![Attribute::new("id", "foo"), Attribute::new("class", "bar")]
    );
}

#[test]
fn set_then_get() {
    let mut attrs = AttributeList::from_vec(vec![Attribute::new("id", "foo")]);
    attrs.set("id", "bar");
    assert_eq!(attrs.get("id"), Some("bar"));
    attrs.set("class", "baz");
    assert_eq!(attrs.get("class"), Some("baz"));
    assert_eq!(attrs.get("id"), Some("bar"));
}

#[test]
fn set_twice_keeps_one_entry() {
    let mut attrs = AttributeList::empty();
    attrs.set("id", "foo");
    attrs.set("id", "bar");
    attrs.set("id", "baz");
    assert_eq!(attrs.len(), 1);
    assert_eq!(attrs.get("id"), Some("baz"));
}

#[test]
fn get_absent_is_none() {
    let attrs = AttributeList::from_vec(vec![Attribute::new("id", "foo")]);
    assert_eq!(attrs.get("class"), None);
}

#[test]
fn remove_returns_first_match() {
    let mut attrs = AttributeList::from_vec(vec![
        Attribute::new("id", "foo"),
        Attribute::new("class", "bar"),
    ]);
    let removed = attrs.remove("id").unwrap();
    assert_eq!(removed.value, "foo");
    assert_eq!(attrs.get("id"), None);
    assert_eq!(attrs.get("class"), Some("bar"));
    assert!(attrs.remove("id").is_none());
}

#[test]
fn iter_walks_in_insertion_order() {
    let attrs = AttributeList::from_vec(vec![
        Attribute::new("a", "1"),
        Attribute::new("b", "2"),
    ]);
    let mut it = attrs.iter();
    let first = it.next().unwrap();
    assert_eq!(first.name, "a");
    let second = it.next().unwrap();
    assert_eq!(second.name, "b");
    assert!(it.next().is_none());
    assert!(it.next().is_none());
}

#[test]
fn equality_ignores_order() {
    let left = AttributeList::from_vec(vec![
        Attribute::new("a", "1"),
        Attribute::new("b", "2"),
    ]);
    let right = AttributeList::from_vec(vec![
        Attribute::new("b", "2"),
        Attribute::new("a", "1"),
    ]);
    assert_eq!(left, right);
}

#[test]
fn equality_not_blind_to_values() {
    let left = AttributeList::from_vec(vec![
        Attribute::new("a", "1"),
        Attribute::new("b", "2"),
    ]);
    let right = AttributeList::from_vec(vec![
        Attribute::new("a", "2"),
        Attribute::new("b", "1"),
    ]);
    assert_ne!(left, right);
    let shorter = AttributeList::from_vec(vec![Attribute::new("a", "1")]);
    assert_ne!(left, shorter);
    let duplicated = AttributeList::from_vec(vec![
        Attribute::new("a", "1"),
        Attribute::new("a", "1"),
    ]);
    assert_ne!(shorter, duplicated);
}

#[test]
fn rendering_keeps_order_that_equality_ignores() {
    let left = AttributeList::from_vec(vec![
        Attribute::new("a", "1"),
        Attribute::new("b", "2"),
    ]);
    let right = AttributeList::from_vec(vec![
        Attribute::new("b", "2"),
        Attribute::new("a", "1"),
    ]);
    assert_eq!(left, right);
    let left_text = rendered(&Token::start_tag("x", left));
    let right_text = rendered(&Token::start_tag("x", right));
    assert_eq!(left_text, "<x a=\"1\" b=\"2\">");
    assert_eq!(right_text, "<x b=\"2\" a=\"1\">");
    assert_ne!(left_text, right_text);
}

#[test]
fn attribute_values_are_escaped() {
    let mut out = String::new();
    Attribute::new("id", "bar & baz").write_to(&mut out);
    assert_eq!(out, "id=\"bar &amp; baz\"");
}

#[test]
fn attribute_names_pass_through_verbatim() {
    let mut out = String::new();
    Attribute::new("invalid=id", "foo").write_to(&mut out);
    assert_eq!(out, "invalid=id=\"foo\"");
}

#[test]
fn empty_value_uses_empty_attribute_syntax() {
    let mut out = String::new();
    Attribute::new("checked", "").write_to(&mut out);
    assert_eq!(out, "checked");
}
