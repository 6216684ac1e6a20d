//! The plain attribute pair used by the `Event` family of types, together
//! with the bare collection of pairs.

use crate::fmt::rendered_attr;
use crate::fmt::write_attr;
use vstd::prelude::*;

verus! {

/// A name/value pair on an element.  The name is never validated and is
/// written verbatim; the value is escaped when the attribute is rendered.
#[derive(Clone, Debug, PartialEq, Eq)]
pub struct Attribute {
    /// The attribute's name.
    pub name: String,
    /// The attribute's value.
    pub value: String,
}

/// A bare collection of attributes, kept in the order they will be
/// written.
pub type AttributeSet = Vec<Attribute>;

/// The collection with no attributes.
pub fn empty_set() -> (r: AttributeSet)
    ensures
        r@ == Seq::<Attribute>::empty(),
{
    let r: Vec<Attribute> = Vec::new();
    proof {
        assert(r@ =~= Seq::<Attribute>::empty());
    }
    r
}

/// The name/value pairs of texts that an attribute sequence holds, in
/// order.
pub open spec fn attr_pairs(s: Seq<Attribute>) -> Seq<(Seq<char>, Seq<char>)> {
    s.map_values(|a: Attribute| (a.name@, a.value@))
}

impl Attribute {
    /// Create an attribute from the two pieces of text.
    pub fn new(name: &str, value: &str) -> (r: Attribute)
        ensures
            r.name@ == name@,
            r.value@ == value@,
    {
        Attribute { name: name.to_owned(), value: value.to_owned() }
    }

    /// Append this attribute's rendered form (without a leading space)
    /// to `w`.
    pub fn write_to(&self, w: &mut String)
        ensures
            final(w)@ == old(w)@ + rendered_attr(self.name@, self.value@),
    {
        write_attr(self.name.as_str(), self.value.as_str(), w);
    }
}

} // verus!
