use hamlet::escape::Escaped;

fn escaped(s: &str) -> String {
    let mut out = String::new();
    Escaped(s).write_to(&mut out);
    out
}

#[test]
fn escape_test() {
    let s = "escape 'me' & \"you\"";
    let mut es = String::new();
    Escaped(s).write_to(&mut es);
    assert_eq!(es, "escape &#39;me&#39; &amp; &quot;you&quot;");
}

#[test]
fn escape_leaves_plain_text_alone() {
    assert_eq!(escaped("hello, world!"), "hello, world!");
}

#[test]
fn escape_empty() {
    assert_eq!(escaped(""), "");
}

#[test]
fn escape_each_special_char() {
    assert_eq!(escaped("&"), "&amp;");
    assert_eq!(escaped("<"), "&lt;");
    assert_eq!(escaped(">"), "&gt;");
    assert_eq!(escaped("\""), "&quot;");
    assert_eq!(escaped("'"), "&#39;");
}

#[test]
fn escape_keeps_order_and_unicode() {
    assert_eq!(escaped("a<b>c"), "a&lt;b&gt;c");
    assert_eq!(escaped("caf\u{e9} & cr\u{e8}me"), "caf\u{e9} &amp; cr\u{e8}me");
}

#[test]
fn escape_appends_to_existing_text() {
    let mut out = String::from("prefix:");
    Escaped("<x>").write_to(&mut out);
    assert_eq!(out, "prefix:&lt;x&gt;");
}
