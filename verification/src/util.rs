//! Conversion of camel-cased identifiers to hyphenated tag names, used
//! when attribute names are written down as ordinary identifiers: each
//! ASCII capital letter becomes a hyphen followed by its lower-case form
//! (`dataFoo` becomes `data-foo`).

use vstd::prelude::*;

verus! {

/// Whether `c` is an ASCII capital letter.
pub open spec fn is_ascii_upper(c: char) -> bool {
    'A' <= c && c <= 'Z'
}

/// The lower-case form of an ASCII capital letter; any other character
/// is kept as it is.
pub open spec fn lower(c: char) -> char {
    if is_ascii_upper(c) {
        ((c as u32) + 32) as char
    } else {
        c
    }
}

/// What one character contributes to the tag name: a hyphen and the
/// lower-case form for an ASCII capital letter, the character itself for
/// everything else.
pub open spec fn tag_name_char(c: char) -> Seq<char> {
    if is_ascii_upper(c) {
        seq!['-', lower(c)]
    } else {
        seq![c]
    }
}

/// The tag name an identifier maps to, character by character.
pub open spec fn tag_name_of(s: Seq<char>) -> Seq<char>
    decreases s.len(),
{
    if s.len() == 0 {
        Seq::empty()
    } else {
        tag_name_char(s[0]) + tag_name_of(s.drop_first())
    }
}

/// Mapping an identifier extended by one character appends what that
/// character contributes.
pub proof fn lemma_tag_name_push(s: Seq<char>, c: char)
    ensures
        tag_name_of(s.push(c)) == tag_name_of(s) + tag_name_char(c),
    decreases s.len(),
{
    if s.len() == 0 {
        assert(s.push(c).drop_first() =~= Seq::<char>::empty());
        assert(tag_name_of(Seq::<char>::empty()) == Seq::<char>::empty());
        assert(s.push(c)[0] == c);
        assert(tag_name_of(s.push(c)) =~= tag_name_of(s) + tag_name_char(c));
    } else {
        assert(s.push(c).drop_first() =~= s.drop_first().push(c));
        lemma_tag_name_push(s.drop_first(), c);
        assert(s.push(c)[0] == s[0]);
        assert(tag_name_of(s.push(c)) =~= tag_name_of(s) + tag_name_char(c));
    }
}

/// The hyphenated lower-case form of one ASCII capital letter.
fn dash_lower(c: char) -> (r: &'static str)
    requires
        is_ascii_upper(c),
    ensures
        r@ == seq!['-', lower(c)],
{
    match c {
        'A' => {
            proof {
                reveal_strlit("-a");
                assert("-a"@ =~= seq!['-', lower(c)]);
            }
            "-a"
        },
        'B' => {
            proof {
                reveal_strlit("-b");
                assert("-b"@ =~= seq!['-', lower(c)]);
            }
            "-b"
        },
        'C' => {
            proof {
                reveal_strlit("-c");
                assert("-c"@ =~= seq!['-', lower(c)]);
            }
            "-c"
        },
        'D' => {
            proof {
                reveal_strlit("-d");
                assert("-d"@ =~= seq!['-', lower(c)]);
            }
            "-d"
        },
        'E' => {
            proof {
                reveal_strlit("-e");
                assert("-e"@ =~= seq!['-', lower(c)]);
            }
            "-e"
        },
        'F' => {
            proof {
                reveal_strlit("-f");
                assert("-f"@ =~= seq!['-', lower(c)]);
            }
            "-f"
        },
        'G' => {
            proof {
                reveal_strlit("-g");
                assert("-g"@ =~= seq!['-', lower(c)]);
            }
            "-g"
        },
        'H' => {
            proof {
                reveal_strlit("-h");
                assert("-h"@ =~= seq!['-', lower(c)]);
            }
            "-h"
        },
        'I' => {
            proof {
                reveal_strlit("-i");
                assert("-i"@ =~= seq!['-', lower(c)]);
            }
            "-i"
        },
        'J' => {
            proof {
                reveal_strlit("-j");
                assert("-j"@ =~= seq!['-', lower(c)]);
            }
            "-j"
        },
        'K' => {
            proof {
                reveal_strlit("-k");
                assert("-k"@ =~= seq!['-', lower(c)]);
            }
            "-k"
        },
        'L' => {
            proof {
                reveal_strlit("-l");
                assert("-l"@ =~= seq!['-', lower(c)]);
            }
            "-l"
        },
        'M' => {
            proof {
                reveal_strlit("-m");
                assert("-m"@ =~= seq!['-', lower(c)]);
            }
            "-m"
        },
        'N' => {
            proof {
                reveal_strlit("-n");
                assert("-n"@ =~= seq!['-', lower(c)]);
            }
            "-n"
        },
        'O' => {
            proof {
                reveal_strlit("-o");
                assert("-o"@ =~= seq!['-', lower(c)]);
            }
            "-o"
        },
        'P' => {
            proof {
                reveal_strlit("-p");
                assert("-p"@ =~= seq!['-', lower(c)]);
            }
            "-p"
        },
        'Q' => {
            proof {
                reveal_strlit("-q");
                assert("-q"@ =~= seq!['-', lower(c)]);
            }
            "-q"
        },
        'R' => {
            proof {
                reveal_strlit("-r");
                assert("-r"@ =~= seq!['-', lower(c)]);
            }
            "-r"
        },
        'S' => {
            proof {
                reveal_strlit("-s");
                assert("-s"@ =~= seq!['-', lower(c)]);
            }
            "-s"
        },
        'T' => {
            proof {
                reveal_strlit("-t");
                assert("-t"@ =~= seq!['-', lower(c)]);
            }
            "-t"
        },
        'U' => {
            proof {
                reveal_strlit("-u");
                assert("-u"@ =~= seq!['-', lower(c)]);
            }
            "-u"
        },
        'V' => {
            proof {
                reveal_strlit("-v");
                assert("-v"@ =~= seq!['-', lower(c)]);
            }
            "-v"
        },
        'W' => {
            proof {
                reveal_strlit("-w");
                assert("-w"@ =~= seq!['-', lower(c)]);
            }
            "-w"
        },
        'X' => {
            proof {
                reveal_strlit("-x");
                assert("-x"@ =~= seq!['-', lower(c)]);
            }
            "-x"
        },
        'Y' => {
            proof {
                reveal_strlit("-y");
                assert("-y"@ =~= seq!['-', lower(c)]);
            }
            "-y"
        },
        'Z' => {
            proof {
                reveal_strlit("-z");
                assert("-z"@ =~= seq!['-', lower(c)]);
            }
            "-z"
        },
        _ => {
            proof {
                assert(false);
            }
            ""
        },
    }
}

/// Turn a camel-cased identifier into a tag name: every ASCII capital
/// letter becomes a hyphen followed by its lower-case form, and every
/// other character passes through unchanged.
pub fn identifier_to_tag_name(s: &str) -> (r: String)
    ensures
        r@ == tag_name_of(s@),
{
    let mut out = String::new();
    let len = s.unicode_len();
    let mut last: usize = 0;
    let mut i: usize = 0;
    while i < len
        invariant
            len == s@.len(),
            last <= i <= len,
            out@ == tag_name_of(s@.take(last as int)),
            tag_name_of(s@.take(i as int)) == tag_name_of(s@.take(last as int)) + s@.subrange(
                last as int,
                i as int,
            ),
        decreases len - i,
    {
        let c = s.get_char(i);
        proof {
            assert(s@.take(i as int + 1) =~= s@.take(i as int).push(c));
            lemma_tag_name_push(s@.take(i as int), c);
        }
        if 'A' <= c && c <= 'Z' {
            out.append(s.substring_char(last, i));
            out.append(dash_lower(c));
            proof {
                assert(out@ =~= tag_name_of(s@.take(i as int + 1)));
                assert(tag_name_of(s@.take(i as int + 1)) == tag_name_of(s@.take(i as int + 1))
                    + s@.subrange(i as int + 1, i as int + 1)) by {
                    assert(s@.subrange(i as int + 1, i as int + 1) =~= Seq::<char>::empty());
                    assert(tag_name_of(s@.take(i as int + 1)) + Seq::<char>::empty()
                        =~= tag_name_of(s@.take(i as int + 1)));
                }
            }
            last = i + 1;
        } else {
            proof {
                assert(s@.subrange(last as int, i as int + 1) =~= s@.subrange(
                    last as int,
                    i as int,
                ).push(c));
                assert(tag_name_of(s@.take(i as int + 1)) =~= tag_name_of(s@.take(last as int))
                    + s@.subrange(last as int, i as int + 1));
            }
        }
        i = i + 1;
    }
    out.append(s.substring_char(last, len));
    proof {
        assert(s@.take(len as int) =~= s@);
        assert(out@ =~= tag_name_of(s@));
    }
    out
}

} // verus!
