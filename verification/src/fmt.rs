//! The textual form of attributes, shared by every token type.
//!
//! An attribute whose value is empty renders as the bare name (the "empty
//! attribute syntax", e.g. `checked`); otherwise it renders as
//! `name="value"` with the value escaped.  Names are written verbatim and
//! never validated.

use crate::escape::escaped;
use crate::escape::Escaped;
use vstd::prelude::*;

verus! {

/// The rendered text of one attribute with the given name and value.
pub open spec fn rendered_attr(name: Seq<char>, value: Seq<char>) -> Seq<char> {
    if value.len() == 0 {
        name
    } else {
        name + "=\""@ + escaped(value) + "\""@
    }
}

/// The rendered text of a list of name/value pairs, in list order, each
/// entry preceded by a single space.
pub open spec fn rendered_attr_list(attrs: Seq<(Seq<char>, Seq<char>)>) -> Seq<char>
    decreases attrs.len(),
{
    if attrs.len() == 0 {
        Seq::empty()
    } else {
        " "@ + rendered_attr(attrs[0].0, attrs[0].1) + rendered_attr_list(attrs.drop_first())
    }
}

/// Rendering a list extended by one pair appends that pair's rendering.
pub proof fn lemma_rendered_attr_list_push(
    attrs: Seq<(Seq<char>, Seq<char>)>,
    a: (Seq<char>, Seq<char>),
)
    ensures
        rendered_attr_list(attrs.push(a)) == rendered_attr_list(attrs) + " "@ + rendered_attr(
            a.0,
            a.1,
        ),
    decreases attrs.len(),
{
    if attrs.len() == 0 {
        assert(attrs.push(a).drop_first() =~= Seq::<(Seq<char>, Seq<char>)>::empty());
        assert(rendered_attr_list(Seq::<(Seq<char>, Seq<char>)>::empty())
            == Seq::<char>::empty());
        assert(attrs.push(a)[0] == a);
        assert(rendered_attr_list(attrs.push(a)) =~= rendered_attr_list(attrs) + " "@
            + rendered_attr(a.0, a.1));
    } else {
        assert(attrs.push(a).drop_first() =~= attrs.drop_first().push(a));
        lemma_rendered_attr_list_push(attrs.drop_first(), a);
        assert(rendered_attr_list(attrs.push(a)) =~= rendered_attr_list(attrs) + " "@
            + rendered_attr(a.0, a.1));
    }
}

/// Append the rendered form of one attribute (without the leading space)
/// to `w`.
pub fn write_attr(name: &str, value: &str, w: &mut String)
    ensures
        final(w)@ == old(w)@ + rendered_attr(name@, value@),
{
    if value.is_empty() {
        w.append(name);
    } else {
        w.append(name);
        w.append("=\"");
        Escaped(value).write_to(w);
        w.append("\"");
        proof {
            assert(w@ =~= old(w)@ + rendered_attr(name@, value@));
        }
    }
}

} // verus!
