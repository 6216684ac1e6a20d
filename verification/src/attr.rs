//! Attributes on elements: a single name/value pair and an ordered list of
//! pairs with lookup, update and removal.
//!
//! The list keeps insertion order, and that order is what rendering uses;
//! equality between two lists nevertheless ignores order and compares the
//! multiset of name/value pairs, since order is not significant when two
//! lists are tested for equivalence.

use crate::fmt::rendered_attr;
use crate::fmt::write_attr;
use vstd::prelude::*;

verus! {

/// An HTML attribute: a name and a value.
///
/// The name is never validated or escaped; the caller must ensure it is a
/// legal attribute name.  The value is escaped when the attribute is
/// rendered, and an empty value selects the empty attribute syntax (the
/// bare name).
#[derive(Clone, Debug)]
pub struct Attribute {
    /// The attribute's name, written verbatim when rendering.
    pub name: String,
    /// The attribute's value, escaped when rendering.
    pub value: String,
}

impl Attribute {
    /// Create an attribute from the two pieces of text.
    pub fn new(name: &str, value: &str) -> (r: Attribute)
        ensures
            r.name@ == name@,
            r.value@ == value@,
    {
        Attribute { name: name.to_owned(), value: value.to_owned() }
    }

    /// Append this attribute's rendered form (without a leading space)
    /// to `w`.
    pub fn write_to(&self, w: &mut String)
        ensures
            final(w)@ == old(w)@ + rendered_attr(self.name@, self.value@),
    {
        write_attr(self.name.as_str(), self.value.as_str(), w);
    }
}

impl PartialEq for Attribute {
    /// Two attributes are equal when both their names and their values
    /// hold the same text.
    fn eq(&self, other: &Attribute) -> bool {
        self.name == other.name && self.value == other.value
    }
}

impl Eq for Attribute {

}

impl vstd::std_specs::cmp::PartialEqSpecImpl for Attribute {
    open spec fn obeys_eq_spec() -> bool {
        true
    }

    open spec fn eq_spec(&self, other: &Attribute) -> bool {
        self.name@ == other.name@ && self.value@ == other.value@
    }
}

/// The name/value pair of texts that one attribute holds.
pub open spec fn attr_pair(a: Attribute) -> (Seq<char>, Seq<char>) {
    (a.name@, a.value@)
}

/// The name/value pairs of texts that an attribute sequence holds, in
/// order.
pub open spec fn attr_pairs(s: Seq<Attribute>) -> Seq<(Seq<char>, Seq<char>)> {
    s.map_values(|a: Attribute| attr_pair(a))
}

/// The index of the first entry named `name`, or `s.len()` when there is
/// none.
pub open spec fn find_name(s: Seq<Attribute>, name: Seq<char>) -> int
    decreases s.len(),
{
    if s.len() == 0 {
        0
    } else if s[0].name@ == name {
        0
    } else {
        1 + find_name(s.drop_first(), name)
    }
}

/// Whether some entry of `s` is named `name`.
pub open spec fn has_name(s: Seq<Attribute>, name: Seq<char>) -> bool {
    find_name(s, name) < s.len()
}

/// The value bound to `name`: the first matching entry's value, or `None`
/// when no entry matches.
pub open spec fn get_spec(s: Seq<Attribute>, name: Seq<char>) -> Option<Seq<char>> {
    if has_name(s, name) {
        Some(s[find_name(s, name)].value@)
    } else {
        None
    }
}

/// `find_name` yields a position no later than the end; entries before it
/// are not named `name`, and the entry at it (when within the sequence) is.
pub proof fn lemma_find_name(s: Seq<Attribute>, name: Seq<char>)
    ensures
        0 <= find_name(s, name) <= s.len(),
        find_name(s, name) < s.len() ==> s[find_name(s, name)].name@ == name,
        forall|j: int| 0 <= j < find_name(s, name) ==> s[j].name@ != name,
    decreases s.len(),
{
    if s.len() == 0 {
    } else if s[0].name@ == name {
    } else {
        lemma_find_name(s.drop_first(), name);
        assert forall|j: int| 0 <= j < find_name(s, name) implies s[j].name@ != name by {
            if j > 0 {
                assert(s.drop_first()[j - 1] == s[j]);
            }
        }
    }
}

/// A first match fixes `find_name`: if the entry at `i` is named `name`
/// and no earlier entry is, then `find_name` yields `i`.
pub proof fn lemma_find_name_at(s: Seq<Attribute>, name: Seq<char>, i: int)
    requires
        0 <= i < s.len(),
        s[i].name@ == name,
        forall|j: int| 0 <= j < i ==> s[j].name@ != name,
    ensures
        find_name(s, name) == i,
    decreases s.len(),
{
    if i == 0 {
    } else {
        assert(s[0].name@ != name);
        assert(s.drop_first()[i - 1] == s[i]);
        assert forall|j: int| 0 <= j < i - 1 implies s.drop_first()[j].name@ != name by {
            assert(s.drop_first()[j] == s[j + 1]);
        }
        lemma_find_name_at(s.drop_first(), name, i - 1);
    }
}

/// When no entry of `s` is named `name`, `find_name` yields `s.len()`.
pub proof fn lemma_find_name_absent(s: Seq<Attribute>, name: Seq<char>)
    requires
        forall|j: int| 0 <= j < s.len() ==> s[j].name@ != name,
    ensures
        find_name(s, name) == s.len(),
{
    lemma_find_name(s, name);
    if find_name(s, name) < s.len() {
        assert(s[find_name(s, name)].name@ == name);
    }
}

/// A list of attributes.
///
/// Stored as a plain ordered list rather than a keyed map: in most cases
/// it is a small collection over which a linear search is the more
/// efficient lookup.  Construction does not deduplicate names; only `set`
/// maintains "at most one entry per name" from then on.
#[derive(Clone, Debug)]
pub struct AttributeList(Vec<Attribute>);

impl View for AttributeList {
    type V = Seq<Attribute>;

    closed spec fn view(&self) -> Seq<Attribute> {
        self.0@
    }
}

impl AttributeList {
    /// The list with no entries.
    pub fn empty() -> (r: AttributeList)
        ensures
            r@ == Seq::<Attribute>::empty(),
    {
        let r = AttributeList(Vec::new());
        proof {
            assert(r@ =~= Seq::<Attribute>::empty());
        }
        r
    }

    /// Wrap a vector of attributes, keeping its order.  Duplicate names
    /// are not checked for.
    pub fn from_vec(attrs: Vec<Attribute>) -> (r: AttributeList)
        ensures
            r@ == attrs@,
    {
        AttributeList(attrs)
    }

    /// Give the entries back as a vector, useful for more extensive
    /// modification than `set` and `remove` offer.
    pub fn into_vec(self) -> (r: Vec<Attribute>)
        ensures
            r@ == self@,
    {
        self.0
    }

    /// The number of entries.
    pub fn len(&self) -> (r: usize)
        ensures
            r == self@.len(),
    {
        self.0.len()
    }

    /// A reference to the entry at `i`, in insertion order.
    pub fn index(&self, i: usize) -> (r: &Attribute)
        requires
            i < self@.len(),
        ensures
            *r == self@[i as int],
    {
        &self.0[i]
    }

    /// Look the value of an attribute up: the first entry with exactly
    /// this name, or `None` when there is none.
    pub fn get<'s>(&'s self, name: &str) -> (r: Option<&'s str>)
        ensures
            match r {
                Some(v) => get_spec(self@, name@) == Some(v@),
                None => get_spec(self@, name@) is None,
            },
    {
        let name_owned: String = name.to_owned();
        let n = self.0.len();
        let mut i: usize = 0;
        while i < n
            invariant
                n == self@.len(),
                i <= n,
                name_owned@ == name@,
                forall|j: int| 0 <= j < i ==> self@[j].name@ != name@,
            decreases n - i,
        {
            if self.0[i].name == name_owned {
                proof {
                    lemma_find_name_at(self@, name@, i as int);
                }
                return Some(self.0[i].value.as_str());
            }
            i = i + 1;
        }
        proof {
            lemma_find_name_absent(self@, name@);
        }
        None
    }

    /// Unconditionally bind `name` to `value`.  When an entry with this
    /// name exists, its value is overwritten in place, keeping its
    /// position; otherwise a new entry is appended at the end.
    pub fn set(&mut self, name: &str, value: &str)
        ensures
            set_updates(old(self)@, final(self)@, name@, value@),
    {
        let name_owned: String = name.to_owned();
        let n = self.0.len();
        let mut i: usize = 0;
        while i < n
            invariant
                n == self@.len(),
                i <= n,
                name_owned@ == name@,
                self@ == old(self)@,
                forall|j: int| 0 <= j < i ==> self@[j].name@ != name@,
            decreases n - i,
        {
            if self.0[i].name == name_owned {
                proof {
                    lemma_find_name_at(self@, name@, i as int);
                }
                self.0[i] = Attribute::new(name, value);
                return ;
            }
            i = i + 1;
        }
        proof {
            lemma_find_name_absent(self@, name@);
        }
        self.0.push(Attribute::new(name, value));
    }

    /// Remove the first entry named `name` and hand it back, or `None`
    /// when there is none; later entries keep their relative order.
    pub fn remove(&mut self, name: &str) -> (r: Option<Attribute>)
        ensures
            match r {
                Some(a) => {
                    &&& has_name(old(self)@, name@)
                    &&& a == old(self)@[find_name(old(self)@, name@)]
                    &&& final(self)@ == old(self)@.remove(find_name(old(self)@, name@))
                },
                None => {
                    &&& !has_name(old(self)@, name@)
                    &&& final(self)@ == old(self)@
                },
            },
    {
        let name_owned: String = name.to_owned();
        let n = self.0.len();
        let mut i: usize = 0;
        while i < n
            invariant
                n == self@.len(),
                i <= n,
                name_owned@ == name@,
                self@ == old(self)@,
                forall|j: int| 0 <= j < i ==> self@[j].name@ != name@,
            decreases n - i,
        {
            if self.0[i].name == name_owned {
                proof {
                    lemma_find_name_at(self@, name@, i as int);
                }
                return Some(self.0.remove(i));
            }
            i = i + 1;
        }
        proof {
            lemma_find_name_absent(self@, name@);
        }
        None
    }

    /// An iterator over the entries, in insertion order.  It is
    /// restartable by calling `iter` again: the list itself is not
    /// consumed.
    pub fn iter<'s>(&'s self) -> (r: Iter<'s>)
        ensures
            r.items() == self@,
            r.position() == 0,
    {
        Iter { inner: &self.0, index: 0 }
    }
}

/// Immutable `AttributeList` iterator, handing out one entry at a time in
/// insertion order.
pub struct Iter<'s> {
    inner: &'s Vec<Attribute>,
    index: usize,
}

impl<'s> Iter<'s> {
    /// The entries this iterator walks.
    pub closed spec fn items(&self) -> Seq<Attribute> {
        self.inner@
    }

    /// How many entries have been handed out already.
    pub closed spec fn position(&self) -> int {
        self.index as int
    }

    /// The next entry, or `None` once all entries have been handed out.
    pub fn next(&mut self) -> (r: Option<&'s Attribute>)
        ensures
            final(self).items() == old(self).items(),
            match r {
                Some(a) => {
                    &&& old(self).position() < old(self).items().len()
                    &&& *a == old(self).items()[old(self).position()]
                    &&& final(self).position() == old(self).position() + 1
                },
                None => {
                    &&& old(self).position() >= old(self).items().len()
                    &&& final(self).position() == old(self).position()
                },
            },
    {
        if self.index < self.inner.len() {
            let r = &self.inner[self.index];
            self.index = self.index + 1;
            Some(r)
        } else {
            None
        }
    }
}

/// Two attribute sequences are equivalent when they hold the same multiset
/// of name/value pairs, whatever their order.
pub open spec fn lists_equal(a: Seq<Attribute>, b: Seq<Attribute>) -> bool {
    attr_pairs(a).to_multiset() == attr_pairs(b).to_multiset()
}

/// Whether two attributes hold the same name and value texts.
fn attr_matches(a: &Attribute, b: &Attribute) -> (r: bool)
    ensures
        r == (attr_pair(*a) == attr_pair(*b)),
{
    a.name == b.name && a.value == b.value
}

/// The index of the first entry of `rest` holding the same pair as `x`.
fn find_match(rest: &Vec<Attribute>, x: &Attribute) -> (r: Option<usize>)
    ensures
        match r {
            Some(j) => j < rest@.len() && attr_pair(rest@[j as int]) == attr_pair(*x),
            None => forall|t: int| 0 <= t < rest@.len() ==> attr_pair(rest@[t]) != attr_pair(*x),
        },
{
    let m = rest.len();
    let mut j: usize = 0;
    while j < m
        invariant
            m == rest@.len(),
            j <= m,
            forall|t: int| 0 <= t < j ==> attr_pair(rest@[t]) != attr_pair(*x),
        decreases m - j,
    {
        if attr_matches(&rest[j], x) {
            return Some(j);
        }
        j = j + 1;
    }
    None
}

/// Whether `a` and `b` hold the same multiset of name/value pairs, decided
/// by matching each entry of `a` against a shrinking copy of `b`.
fn list_multiset_eq(a: &Vec<Attribute>, b: &Vec<Attribute>) -> (r: bool)
    ensures
        r == lists_equal(a@, b@),
{
    broadcast use vstd::seq_lib::group_to_multiset_ensures;
    broadcast use vstd::multiset::group_multiset_axioms;

    let mut rest: Vec<Attribute> = Vec::new();
    let bn = b.len();
    let mut k: usize = 0;
    while k < bn
        invariant
            bn == b@.len(),
            k <= bn,
            rest@.len() == k,
            forall|j: int| 0 <= j < k ==> attr_pair(rest@[j]) == attr_pair(b@[j]),
        decreases bn - k,
    {
        let copied = Attribute::new(b[k].name.as_str(), b[k].value.as_str());
        rest.push(copied);
        k = k + 1;
    }
    proof {
        assert(attr_pairs(rest@) =~= attr_pairs(b@));
    }
    let ghost bms = attr_pairs(b@).to_multiset();
    let an = a.len();
    let mut i: usize = 0;
    while i < an
        invariant
            an == a@.len(),
            i <= an,
            attr_pairs(a@.take(i as int)).to_multiset().add(attr_pairs(rest@).to_multiset())
                == attr_pairs(b@).to_multiset(),
        decreases an - i,
    {
        let ghost p = attr_pair(a@[i as int]);
        let ghost take_ms = attr_pairs(a@.take(i as int)).to_multiset();
        let ghost rest0 = rest@;
        proof {
            broadcast use vstd::seq_lib::group_to_multiset_ensures;
            broadcast use vstd::multiset::group_multiset_axioms;
            assert(a@.take(i as int + 1) =~= a@.take(i as int).push(a@[i as int]));
            assert(attr_pairs(a@.take(i as int + 1)) =~= attr_pairs(a@.take(i as int)).push(p));
            vstd::seq_lib::to_multiset_build(attr_pairs(a@.take(i as int)), p);
            assert(attr_pairs(a@.take(i as int + 1)).to_multiset() == take_ms.insert(p));
        }
        match find_match(&rest, &a[i]) {
            Some(j) => {
                let _removed = rest.remove(j);
                proof {
                    broadcast use vstd::seq_lib::group_to_multiset_ensures;
                    broadcast use vstd::multiset::group_multiset_axioms;
                    assert(attr_pairs(rest@) =~= attr_pairs(rest0).remove(j as int));
                    vstd::seq_lib::to_multiset_remove(attr_pairs(rest0), j as int);
                    assert(attr_pairs(rest@).to_multiset() == attr_pairs(
                        rest0,
                    ).to_multiset().remove(p));
                    assert(attr_pairs(rest0).contains(p)) by {
                        assert(attr_pairs(rest0)[j as int] == p);
                    }
                    assert(attr_pairs(rest0).to_multiset().count(p) > 0);
                    assert(take_ms.insert(p).add(attr_pairs(rest@).to_multiset()) =~= take_ms.add(
                        attr_pairs(rest0).to_multiset(),
                    ));
                }
            },
            None => {
                proof {
                    broadcast use vstd::seq_lib::group_to_multiset_ensures;
                    broadcast use vstd::multiset::group_multiset_axioms;
                    assert(!attr_pairs(rest0).contains(p));
                    assert(attr_pairs(rest0).to_multiset().count(p) == 0);
                    assert(attr_pairs(b@).to_multiset().count(p) == take_ms.count(p));
                    assert(a@ =~= a@.take(i as int + 1) + a@.skip(i as int + 1));
                    assert(attr_pairs(a@) =~= attr_pairs(a@.take(i as int + 1)) + attr_pairs(
                        a@.skip(i as int + 1),
                    ));
                    vstd::seq_lib::lemma_multiset_commutative(
                        attr_pairs(a@.take(i as int + 1)),
                        attr_pairs(a@.skip(i as int + 1)),
                    );
                    assert(attr_pairs(a@).to_multiset().count(p) >= take_ms.count(p) + 1);
                    assert(!lists_equal(a@, b@));
                }
                return false;
            },
        }
        i = i + 1;
    }
    proof {
        assert(a@.take(an as int) =~= a@);
    }
    if rest.len() == 0 {
        proof {
            broadcast use vstd::seq_lib::group_to_multiset_ensures;
            broadcast use vstd::multiset::group_multiset_axioms;
            assert(attr_pairs(rest@) =~= Seq::<(Seq<char>, Seq<char>)>::empty());
            assert(attr_pairs(rest@).to_multiset().len() == 0);
            vstd::multiset::lemma_multiset_empty_len(attr_pairs(rest@).to_multiset());
            assert(attr_pairs(a@).to_multiset().add(attr_pairs(rest@).to_multiset())
                =~= attr_pairs(a@).to_multiset());
        }
        true
    } else {
        proof {
            broadcast use vstd::seq_lib::group_to_multiset_ensures;
            broadcast use vstd::multiset::group_multiset_axioms;
            assert(attr_pairs(rest@).to_multiset().len() == rest@.len());
            assert(bms.len() == attr_pairs(a@).to_multiset().len() + rest@.len());
            assert(attr_pairs(a@).to_multiset().len() == a@.len());
            assert(bms.len() > a@.len());
            assert(!lists_equal(a@, b@));
        }
        false
    }
}

impl PartialEq for AttributeList {
    /// Two lists are equal when they hold the same multiset of name/value
    /// pairs; the order of the entries is ignored, although it matters for
    /// rendering.
    fn eq(&self, other: &AttributeList) -> bool {
        list_multiset_eq(&self.0, &other.0)
    }
}

impl Eq for AttributeList {

}

impl vstd::std_specs::cmp::PartialEqSpecImpl for AttributeList {
    open spec fn obeys_eq_spec() -> bool {
        true
    }

    open spec fn eq_spec(&self, other: &AttributeList) -> bool {
        lists_equal(self@, other@)
    }
}

/// List equality ignores order: the entries of `a` followed by those of
/// `b` compare equal to the entries of `b` followed by those of `a`,
/// whatever the two sequences hold.
pub proof fn lemma_eq_order_independent(a: Seq<Attribute>, b: Seq<Attribute>)
    ensures
        lists_equal(a + b, b + a),
{
    broadcast use vstd::multiset::group_multiset_axioms;

    assert(attr_pairs(a + b) =~= attr_pairs(a) + attr_pairs(b));
    assert(attr_pairs(b + a) =~= attr_pairs(b) + attr_pairs(a));
    vstd::seq_lib::lemma_multiset_commutative(attr_pairs(a), attr_pairs(b));
    vstd::seq_lib::lemma_multiset_commutative(attr_pairs(b), attr_pairs(a));
    assert(attr_pairs(a).to_multiset().add(attr_pairs(b).to_multiset()) =~= attr_pairs(
        b,
    ).to_multiset().add(attr_pairs(a).to_multiset()));
}

/// How `set` changes a list: with `name` present, the first entry so named
/// is re-bound to `value` in place; with `name` absent, a `name`/`value`
/// entry is appended.  All other entries are untouched.
pub open spec fn set_updates(
    pre: Seq<Attribute>,
    post: Seq<Attribute>,
    name: Seq<char>,
    value: Seq<char>,
) -> bool {
    if has_name(pre, name) {
        let i = find_name(pre, name);
        &&& post.len() == pre.len()
        &&& forall|j: int| 0 <= j < pre.len() && j != i ==> post[j] == pre[j]
        &&& post[i].name@ == name
        &&& post[i].value@ == value
    } else {
        &&& post.len() == pre.len() + 1
        &&& forall|j: int| 0 <= j < pre.len() ==> post[j] == pre[j]
        &&& post[pre.len() as int].name@ == name
        &&& post[pre.len() as int].value@ == value
    }
}

/// Binding a name and then looking it up yields the bound value.
pub proof fn lemma_set_then_get(
    pre: Seq<Attribute>,
    post: Seq<Attribute>,
    name: Seq<char>,
    value: Seq<char>,
)
    requires
        set_updates(pre, post, name, value),
    ensures
        get_spec(post, name) == Some(value),
{
    lemma_find_name(pre, name);
    let i = find_name(pre, name);
    assert forall|j: int| 0 <= j < i implies post[j].name@ != name by {
        assert(post[j] == pre[j]);
    }
    lemma_find_name_at(post, name, i);
}

/// How many entries of `s` are named `name`.
pub open spec fn count_name(s: Seq<Attribute>, name: Seq<char>) -> nat
    decreases s.len(),
{
    if s.len() == 0 {
        0
    } else {
        (if s[0].name@ == name {
            1nat
        } else {
            0nat
        }) + count_name(s.drop_first(), name)
    }
}

/// The count of a name depends only on which positions carry it.
proof fn lemma_count_name_congruent(s: Seq<Attribute>, t: Seq<Attribute>, name: Seq<char>)
    requires
        s.len() == t.len(),
        forall|j: int| 0 <= j < s.len() ==> ((s[j].name@ == name) <==> (t[j].name@ == name)),
    ensures
        count_name(s, name) == count_name(t, name),
    decreases s.len(),
{
    if s.len() > 0 {
        assert forall|j: int|
            0 <= j < s.drop_first().len() implies ((s.drop_first()[j].name@ == name) <==> (
        t.drop_first()[j].name@ == name)) by {
            assert(s.drop_first()[j] == s[j + 1]);
            assert(t.drop_first()[j] == t[j + 1]);
        }
        lemma_count_name_congruent(s.drop_first(), t.drop_first(), name);
    }
}

/// The count of a name grows by one exactly when a so-named entry is
/// appended.
proof fn lemma_count_name_push(s: Seq<Attribute>, a: Attribute, name: Seq<char>)
    ensures
        count_name(s.push(a), name) == count_name(s, name) + (if a.name@ == name {
            1nat
        } else {
            0nat
        }),
    decreases s.len(),
{
    if s.len() == 0 {
        assert(s.push(a).drop_first() =~= Seq::<Attribute>::empty());
        assert(count_name(Seq::<Attribute>::empty(), name) == 0);
        assert(s.push(a)[0] == a);
    } else {
        assert(s.push(a).drop_first() =~= s.drop_first().push(a));
        lemma_count_name_push(s.drop_first(), a, name);
        assert(s.push(a)[0] == s[0]);
    }
}

/// `set` with a fresh name adds one entry for it; `set` with a present
/// name keeps every name's count as it was.
pub proof fn lemma_set_count(
    pre: Seq<Attribute>,
    post: Seq<Attribute>,
    name: Seq<char>,
    value: Seq<char>,
)
    requires
        set_updates(pre, post, name, value),
    ensures
        count_name(post, name) == count_name(pre, name) + (if has_name(pre, name) {
            0nat
        } else {
            1nat
        }),
{
    lemma_find_name(pre, name);
    if has_name(pre, name) {
        let i = find_name(pre, name);
        assert forall|j: int|
            0 <= j < pre.len() implies ((pre[j].name@ == name) <==> (post[j].name@ == name)) by {
            if j != i {
                assert(post[j] == pre[j]);
            }
        }
        lemma_count_name_congruent(pre, post, name);
    } else {
        let stem = post.take(pre.len() as int);
        assert(stem.len() == pre.len());
        assert forall|j: int|
            0 <= j < pre.len() implies ((pre[j].name@ == name) <==> (stem[j].name@ == name)) by {
            assert(stem[j] == post[j]);
            assert(post[j] == pre[j]);
        }
        lemma_count_name_congruent(pre, stem, name);
        assert(post =~= stem.push(post[pre.len() as int]));
        lemma_count_name_push(stem, post[pre.len() as int], name);
    }
}

/// Binding the same name twice never increases how many entries carry it:
/// the second `set` finds the entry the first one made and overwrites it.
pub proof fn lemma_set_twice_count(
    s0: Seq<Attribute>,
    s1: Seq<Attribute>,
    s2: Seq<Attribute>,
    name: Seq<char>,
    v1: Seq<char>,
    v2: Seq<char>,
)
    requires
        set_updates(s0, s1, name, v1),
        set_updates(s1, s2, name, v2),
    ensures
        count_name(s2, name) == count_name(s1, name),
{
    lemma_find_name(s0, name);
    let i = if has_name(s0, name) {
        find_name(s0, name)
    } else {
        s0.len() as int
    };
    assert(s1[i].name@ == name);
    lemma_find_name(s1, name);
    if !has_name(s1, name) {
        assert(s1[i].name@ != name);
    }
    lemma_set_count(s1, s2, name, v2);
}

} // verus!
