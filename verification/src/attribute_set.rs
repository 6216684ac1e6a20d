//! The set of attributes carried by a start-tag event.

use crate::attribute::Attribute;
use vstd::prelude::*;

verus! {

/// The attributes of a start tag, kept in the order they will be written.
#[derive(Clone, Debug)]
pub struct AttributeSet {
    /// The attributes, in writing order.
    pub attrs: Vec<Attribute>,
}

impl AttributeSet {
    /// The set with no attributes.
    pub fn empty() -> (r: AttributeSet)
        ensures
            r.attrs@ == Seq::<Attribute>::empty(),
    {
        let v: Vec<Attribute> = Vec::new();
        proof {
            assert(v@ =~= Seq::<Attribute>::empty());
        }
        AttributeSet::new(v)
    }

    /// Wrap the given attributes, keeping their order.
    pub fn new(attrs: Vec<Attribute>) -> (r: AttributeSet)
        ensures
            r.attrs@ == attrs@,
    {
        AttributeSet { attrs }
    }
}

} // verus!
