//! HTML escaping of arbitrary text.
//!
//! Exactly five characters are replaced by entity references: `&`, `<`, `>`,
//! `"` and `'`.  Every other character passes through unchanged, so escaped
//! text is safe to embed both as element content and as an attribute value.

use vstd::prelude::*;

verus! {

/// Whether `c` is one of the five characters that escaping replaces.
pub open spec fn is_escaped_char(c: char) -> bool {
    c == '<' || c == '>' || c == '"' || c == '\'' || c == '&'
}

/// What one character contributes to the escaped form of a text: the fixed
/// entity reference for one of the five escaped characters, the character
/// itself for everything else.
pub open spec fn escaped_char(c: char) -> Seq<char> {
    if c == '<' {
        "&lt;"@
    } else if c == '>' {
        "&gt;"@
    } else if c == '"' {
        "&quot;"@
    } else if c == '\'' {
        "&#39;"@
    } else if c == '&' {
        "&amp;"@
    } else {
        seq![c]
    }
}

/// The escaped form of a whole text: each character replaced by what it
/// contributes, in order.
pub open spec fn escaped(s: Seq<char>) -> Seq<char>
    decreases s.len(),
{
    if s.len() == 0 {
        Seq::empty()
    } else {
        escaped_char(s[0]) + escaped(s.drop_first())
    }
}

/// Escaping one character yields its fixed replacement, and a character
/// outside the escaped set passes through unchanged.
pub proof fn lemma_escaped_single(c: char)
    ensures
        escaped(seq![c]) == escaped_char(c),
        !is_escaped_char(c) ==> escaped(seq![c]) == seq![c],
{
    assert(seq![c].drop_first() =~= Seq::<char>::empty());
    assert(escaped(Seq::<char>::empty()) == Seq::<char>::empty());
    assert(escaped(seq![c]) == escaped_char(c) + escaped(seq![c].drop_first()));
    assert(escaped_char(c) + Seq::<char>::empty() =~= escaped_char(c));
}

/// Escaping acts on each character independently: the escaped form of a
/// concatenation is the concatenation of the escaped forms.  Together with
/// `lemma_escaped_single` this pins escaping down character by character, so
/// the relative order and count of unescaped characters is preserved.
pub proof fn lemma_escaped_concat(a: Seq<char>, b: Seq<char>)
    ensures
        escaped(a + b) == escaped(a) + escaped(b),
    decreases a.len(),
{
    if a.len() == 0 {
        assert(a + b =~= b);
        assert(escaped(a) + escaped(b) =~= escaped(b));
    } else {
        assert((a + b).drop_first() =~= a.drop_first() + b);
        lemma_escaped_concat(a.drop_first(), b);
        assert(escaped(a + b) =~= escaped(a) + escaped(b));
    }
}

/// Escaping a text extended by one character appends that character's
/// replacement.
pub proof fn lemma_escaped_push(s: Seq<char>, c: char)
    ensures
        escaped(s.push(c)) == escaped(s) + escaped_char(c),
{
    assert(s.push(c) =~= s + seq![c]);
    lemma_escaped_concat(s, seq![c]);
    lemma_escaped_single(c);
}

/// The replacement text for one character, or `None` when the character
/// passes through unchanged.
fn escape_char(c: char) -> (r: Option<&'static str>)
    ensures
        match r {
            Some(e) => is_escaped_char(c) && e@ == escaped_char(c),
            None => !is_escaped_char(c),
        },
{
    match c {
        '<' => Some("&lt;"),
        '>' => Some("&gt;"),
        '"' => Some("&quot;"),
        '\'' => Some("&#39;"),
        '&' => Some("&amp;"),
        _ => None,
    }
}

/// Wraps a piece of text so that it can be written in escaped form.
pub struct Escaped<'a>(pub &'a str);

impl<'a> Escaped<'a> {
    /// Append the escaped form of the wrapped text to `w`.
    ///
    /// The text is walked once; runs of unescaped characters are flushed as
    /// whole spans between the fixed replacement strings.
    pub fn write_to(&self, w: &mut String)
        ensures
            final(w)@ == old(w)@ + escaped(self.0@),
    {
        let s = self.0;
        let len = s.unicode_len();
        let mut last: usize = 0;
        let mut i: usize = 0;
        while i < len
            invariant
                len == s@.len(),
                last <= i <= len,
                w@ == old(w)@ + escaped(s@.take(last as int)),
                escaped(s@.take(i as int)) == escaped(s@.take(last as int)) + s@.subrange(
                    last as int,
                    i as int,
                ),
            decreases len - i,
        {
            let c = s.get_char(i);
            proof {
                assert(s@.take(i as int + 1) =~= s@.take(i as int).push(c));
                lemma_escaped_push(s@.take(i as int), c);
            }
            match escape_char(c) {
                Some(esc) => {
                    let run = s.substring_char(last, i);
                    w.append(run);
                    w.append(esc);
                    proof {
                        assert(w@ =~= old(w)@ + escaped(s@.take(i as int + 1)));
                        assert(escaped(s@.take(i as int + 1)) == escaped(s@.take(i as int + 1))
                            + s@.subrange(i as int + 1, i as int + 1)) by {
                            assert(s@.subrange(i as int + 1, i as int + 1)
                                =~= Seq::<char>::empty());
                            assert(escaped(s@.take(i as int + 1)) + Seq::<char>::empty()
                                =~= escaped(s@.take(i as int + 1)));
                        }
                    }
                    last = i + 1;
                },
                None => {
                    proof {
                        assert(s@.subrange(last as int, i as int + 1) =~= s@.subrange(
                            last as int,
                            i as int,
                        ).push(c));
                        assert(escaped(s@.take(i as int + 1)) =~= escaped(s@.take(last as int))
                            + s@.subrange(last as int, i as int + 1));
                    }
                },
            }
            i = i + 1;
        }
        let tail = s.substring_char(last, len);
        w.append(tail);
        proof {
            assert(s@.take(len as int) =~= s@);
            assert(w@ =~= old(w)@ + escaped(s@));
        }
    }
}

} // verus!
