//! HTML tokens: representations of everything needed to write an
//! [HTML document](https://www.w3.org/TR/html/syntax.html#writing) as a
//! forward-only stream.
//!
//! By convention, `Token::Text` should be preferred over `Token::RawText`
//! when a piece of text can be represented by both: `Text` is escaped when
//! written, `RawText` is written as-is.  The output stream is assumed to be
//! Unicode, so only five characters are escaped: `&`, `<`, `>`, `"` and
//! `'`.

use crate::attr::attr_pair;
use crate::attr::attr_pairs;
use crate::attr::lists_equal;
use crate::attr::AttributeList;
use crate::escape::escaped;
use crate::escape::Escaped;
use crate::fmt::lemma_rendered_attr_list_push;
use crate::fmt::rendered_attr_list;
use vstd::prelude::*;

verus! {

/// An HTML token.
#[derive(Clone, Debug)]
pub enum Token {
    /// A [start tag](https://www.w3.org/TR/html/syntax.html#syntax-start-tag)
    /// token.
    StartTag {
        /// The element's tag name, written verbatim.
        name: String,
        /// Any attributes for the start tag, written in list order.
        attrs: AttributeList,
        /// Marker indicating the tag should be self-closing, such as
        /// `<br />` (although `br` is a void element, so on it the marker
        /// has no effect).
        self_closing: bool,
    },
    /// An [end tag](https://www.w3.org/TR/html/syntax.html#syntax-end-tag)
    /// token.
    EndTag {
        /// The element's tag name, written verbatim.
        name: String,
    },
    /// Text, escaped when written.
    Text(String),
    /// Text written as-is; the caller guarantees it is safe.
    RawText(String),
    /// A comment, written unescaped between `<!--` and `-->`.  No
    /// validation ensures the text conforms to the comment syntax.
    Comment(String),
    /// The HTML5 DOCTYPE declaration, `<!DOCTYPE html>`.
    DOCTYPE,
}

/// The exact text a token renders to.
pub open spec fn rendered_token(t: Token) -> Seq<char> {
    match t {
        Token::StartTag { name, attrs, self_closing } => "<"@ + name@ + rendered_attr_list(
            attr_pairs(attrs@),
        ) + (if self_closing {
            " />"@
        } else {
            ">"@
        }),
        Token::EndTag { name } => "</"@ + name@ + ">"@,
        Token::Text(text) => escaped(text@),
        Token::RawText(text) => text@,
        Token::Comment(text) => "<!--"@ + text@ + "-->"@,
        Token::DOCTYPE => "<!DOCTYPE html>"@,
    }
}

impl Token {
    /// Create a `StartTag` token with the given element name and
    /// attributes; use `closed()` to set the `self_closing` flag.
    pub fn start_tag(name: &str, attrs: AttributeList) -> (r: Token)
        ensures
            r matches Token::StartTag { name: n, attrs: a, self_closing: sc } && n@ == name@ && a
                == attrs && sc == false,
    {
        Token::StartTag { name: name.to_owned(), attrs, self_closing: false }
    }

    /// Create an `EndTag` token with the given element name.
    pub fn end_tag(name: &str) -> (r: Token)
        ensures
            r matches Token::EndTag { name: n } && n@ == name@,
    {
        Token::EndTag { name: name.to_owned() }
    }

    /// Create a `Text` token with the given text content.
    pub fn text(s: &str) -> (r: Token)
        ensures
            r matches Token::Text(t) && t@ == s@,
    {
        Token::Text(s.to_owned())
    }

    /// Create a `RawText` token with the given raw text content.
    pub fn raw_text(s: &str) -> (r: Token)
        ensures
            r matches Token::RawText(t) && t@ == s@,
    {
        Token::RawText(s.to_owned())
    }

    /// Create a `Comment` token with the given comment content.
    pub fn comment(s: &str) -> (r: Token)
        ensures
            r matches Token::Comment(t) && t@ == s@,
    {
        Token::Comment(s.to_owned())
    }

    /// If `self` is a `StartTag`, a copy with `self_closing` set to
    /// `true`; any other token is handed back unchanged, never an error.
    pub fn closed(self) -> (r: Token)
        ensures
            self matches Token::StartTag { name, attrs, self_closing } ==> r == (Token::StartTag {
                name,
                attrs,
                self_closing: true,
            }),
            !(self matches Token::StartTag { .. }) ==> r == self,
    {
        if let Token::StartTag { name, attrs, .. } = self {
            Token::StartTag { name, attrs, self_closing: true }
        } else {
            self
        }
    }

    /// Append this token's rendered text to `w`.
    pub fn write_to(&self, w: &mut String)
        ensures
            final(w)@ == old(w)@ + rendered_token(*self),
    {
        match self {
            Token::StartTag { name, attrs, self_closing } => {
                w.append("<");
                w.append(name.as_str());
                let n = attrs.len();
                let mut i: usize = 0;
                while i < n
                    invariant
                        n == attrs@.len(),
                        i <= n,
                        w@ == old(w)@ + "<"@ + name@ + rendered_attr_list(
                            attr_pairs(attrs@.take(i as int)),
                        ),
                    decreases n - i,
                {
                    let a = attrs.index(i);
                    w.append(" ");
                    a.write_to(w);
                    proof {
                        assert(attr_pairs(attrs@.take(i as int + 1)) =~= attr_pairs(
                            attrs@.take(i as int),
                        ).push(attr_pair(attrs@[i as int])));
                        lemma_rendered_attr_list_push(
                            attr_pairs(attrs@.take(i as int)),
                            attr_pair(attrs@[i as int]),
                        );
                        assert(w@ =~= old(w)@ + "<"@ + name@ + rendered_attr_list(
                            attr_pairs(attrs@.take(i as int + 1)),
                        ));
                    }
                    i = i + 1;
                }
                proof {
                    assert(attrs@.take(n as int) =~= attrs@);
                }
                if *self_closing {
                    w.append(" />");
                } else {
                    w.append(">");
                }
                proof {
                    assert(w@ =~= old(w)@ + rendered_token(*self));
                }
            },
            Token::EndTag { name } => {
                w.append("</");
                w.append(name.as_str());
                w.append(">");
                proof {
                    assert(w@ =~= old(w)@ + rendered_token(*self));
                }
            },
            Token::Text(text) => {
                Escaped(text.as_str()).write_to(w);
            },
            Token::RawText(text) => {
                w.append(text.as_str());
            },
            Token::Comment(text) => {
                w.append("<!--");
                w.append(text.as_str());
                w.append("-->");
                proof {
                    assert(w@ =~= old(w)@ + rendered_token(*self));
                }
            },
            Token::DOCTYPE => {
                w.append("<!DOCTYPE html>");
            },
        }
    }
}

/// What token equality compares: the same variant, the same texts, and
/// for start tags the same multiset of attributes.
pub open spec fn token_eq_spec(a: Token, b: Token) -> bool {
    match (a, b) {
        (
            Token::StartTag { name: n1, attrs: a1, self_closing: s1 },
            Token::StartTag { name: n2, attrs: a2, self_closing: s2 },
        ) => n1@ == n2@ && lists_equal(a1@, a2@) && s1 == s2,
        (Token::EndTag { name: n1 }, Token::EndTag { name: n2 }) => n1@ == n2@,
        (Token::Text(t1), Token::Text(t2)) => t1@ == t2@,
        (Token::RawText(t1), Token::RawText(t2)) => t1@ == t2@,
        (Token::Comment(t1), Token::Comment(t2)) => t1@ == t2@,
        (Token::DOCTYPE, Token::DOCTYPE) => true,
        _ => false,
    }
}

impl PartialEq for Token {
    /// Two tokens are equal when they are the same kind of token and
    /// their parts are equal; attribute lists compare without regard to
    /// order.
    fn eq(&self, other: &Token) -> bool {
        match (self, other) {
            (
                Token::StartTag { name: n1, attrs: a1, self_closing: s1 },
                Token::StartTag { name: n2, attrs: a2, self_closing: s2 },
            ) => *n1 == *n2 && *a1 == *a2 && *s1 == *s2,
            (Token::EndTag { name: n1 }, Token::EndTag { name: n2 }) => *n1 == *n2,
            (Token::Text(t1), Token::Text(t2)) => *t1 == *t2,
            (Token::RawText(t1), Token::RawText(t2)) => *t1 == *t2,
            (Token::Comment(t1), Token::Comment(t2)) => *t1 == *t2,
            (Token::DOCTYPE, Token::DOCTYPE) => true,
            _ => false,
        }
    }
}

impl Eq for Token {

}

impl vstd::std_specs::cmp::PartialEqSpecImpl for Token {
    open spec fn obeys_eq_spec() -> bool {
        true
    }

    open spec fn eq_spec(&self, other: &Token) -> bool {
        token_eq_spec(*self, *other)
    }
}

} // verus!
