use hamlet::attr::Attribute;
use hamlet::attr::AttributeList;
use hamlet::Token;

fn rendered(t: &Token) -> String {
    let mut out = String::new();
    t.write_to(&mut out);
    out
}

#[test]
fn token_variants() {
    let start_tag = Token::start_tag("tag", AttributeList::empty());
    assert_eq!(rendered(&start_tag), "<tag>");

    let end_tag = Token::end_tag("tag");
    assert_eq!(rendered(&end_tag), "</tag>");

    let text = Token::text("<bomb>");
    assert_eq!(rendered(&text), "&lt;bomb&gt;");

    let raw_text = Token::raw_text("<bomb>");
    assert_eq!(rendered(&raw_text), "<bomb>");

    let comment = Token::comment("Multi\nline\ncomment");
    assert_eq!(rendered(&comment), "<!--Multi\nline\ncomment-->");

    assert_eq!(rendered(&Token::DOCTYPE), "<!DOCTYPE html>");
}

#[test]
fn self_closing_br() {
    let br = Token::start_tag("br", AttributeList::empty());
    assert_eq!(rendered(&br), "<br>");
    assert_eq!(rendered(&br.closed()), "<br />");
}

#[test]
fn empty_attribute_in_start_tag() {
    let tag = Token::start_tag(
        "input",
        AttributeList::from_vec(vec![Attribute::new("checked", "")]),
    );
    assert_eq!(rendered(&tag), "<input checked>");
}

#[test]
fn closed_end_tag_is_a_no_op() {
    assert_eq!(Token::end_tag("p").closed(), Token::end_tag("p"));
    assert_eq!(Token::text("hello world").closed(), Token::text("hello world"));
    assert_eq!(Token::DOCTYPE.closed(), Token::DOCTYPE);
}

#[test]
fn closed_sets_the_flag() {
    let tag = Token::start_tag("br", AttributeList::empty()).closed();
    assert!(matches!(
        tag,
        Token::StartTag { self_closing: true, .. }
    ));
}

#[test]
fn start_tag_with_attributes() {
    let tag = Token::start_tag(
        "a",
        AttributeList::from_vec(vec![
            Attribute::new("href", "x?a=1&b=2"),
            Attribute::new("title", "it's \"fine\""),
        ]),
    );
    assert_eq!(
        rendered(&tag),
        "<a href=\"x?a=1&amp;b=2\" title=\"it&#39;s &quot;fine&quot;\">"
    );
}

#[test]
fn end_to_end() {
    let tokens = vec![
        Token::start_tag(
            "h1",
            AttributeList::from_vec(vec![
                Attribute::new("id", "hello"),
                Attribute::new("class", "fun"),
            ]),
        ),
        Token::text("Hello, "),
        Token::start_tag("small", AttributeList::empty()),
        Token::text("world"),
        Token::end_tag("small"),
        Token::start_tag(
            "img",
            AttributeList::from_vec(vec![Attribute::new("src", "foo-link")]),
        )
        .closed(),
        Token::end_tag("h1"),
    ];
    let mut html = String::new();
    for token in &tokens {
        token.write_to(&mut html);
    }
    assert_eq!(
        html,
        "<h1 id=\"hello\" class=\"fun\">Hello, <small>world</small><img src=\"foo-link\" /></h1>"
    );
}

#[test]
fn token_equality_ignores_attribute_order() {
    let left = Token::start_tag(
        "x",
        AttributeList::from_vec(vec![
            Attribute::new("a", "1"),
            Attribute::new("b", "2"),
        ]),
    );
    let right = Token::start_tag(
        "x",
        AttributeList::from_vec(vec![
            Attribute::new("b", "2"),
            Attribute::new("a", "1"),
        ]),
    );
    assert_eq!(left, right);
    assert_ne!(left, Token::end_tag("x"));
}
