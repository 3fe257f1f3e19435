//! The condition tree of a `@supports` rule, its mathematical model, and
//! structural equality.

use vstd::prelude::*;
use crate::vendor_prefix::VendorPrefixSet;

verus! {

/// The mathematical model of a property identifier: a name and a set of
/// vendor prefixes.
pub struct PropIdView {
    pub name: Seq<char>,
    pub prefix: VendorPrefixSet,
}

/// The mathematical model of a condition tree.
pub enum Cond {
    /// Logical NOT of one sub-condition.
    Not(Box<Cond>),
    /// Logical AND of an ordered list of sub-conditions.
    And(Seq<Cond>),
    /// Logical OR of an ordered list of sub-conditions.
    Or(Seq<Cond>),
    /// "This property: value pair is supported."
    Declaration { property: PropIdView, value: Seq<char> },
    /// "This selector text is supported."
    Selector(Seq<char>),
    /// Unrecognized but token-balanced condition text, kept verbatim.
    Unknown(Seq<char>),
}

/// Well-formedness of a condition tree: every conjunction and disjunction in
/// it has at least two members.
pub open spec fn wf_cond(c: Cond) -> bool
    decreases c,
{
    match c {
        Cond::Not(inner) => wf_cond(*inner),
        Cond::And(items) => items.len() >= 2 && wf_items(items),
        Cond::Or(items) => items.len() >= 2 && wf_items(items),
        _ => true,
    }
}

/// Well-formedness of every member of a list.
pub open spec fn wf_items(items: Seq<Cond>) -> bool
    decreases items,
{
    forall|i: int| 0 <= i < items.len() ==> wf_cond(#[trigger] items[i])
}

/// A property identifier: its (unprefixed) name and the vendor prefixes it
/// carries.
pub struct PropertyId {
    pub name: Vec<char>,
    pub prefix: VendorPrefixSet,
}

impl View for PropertyId {
    type V = PropIdView;

    open spec fn view(&self) -> PropIdView {
        PropIdView { name: self.name@, prefix: self.prefix }
    }
}

impl PropertyId {
    pub fn deep_clone(&self) -> (r: PropertyId)
        ensures
            r@ == self@,
    {
        PropertyId { name: clone_chars(&self.name), prefix: self.prefix }
    }
}

/// A `<supports-condition>`, as used in the `@supports` rule.
pub enum SupportsCondition {
    /// A `not` expression.
    Not(Box<SupportsCondition>),
    /// An `and` expression.
    And(Vec<SupportsCondition>),
    /// An `or` expression.
    Or(Vec<SupportsCondition>),
    /// A declaration to evaluate.
    Declaration { property_id: PropertyId, value: Vec<char> },
    /// A selector to evaluate.
    Selector(Vec<char>),
    /// An unknown condition, kept verbatim.
    Unknown(Vec<char>),
}

/// The models of the elements of a list of conditions.
pub open spec fn views_of(v: Seq<SupportsCondition>) -> Seq<Cond>
    decreases v,
{
    Seq::new(v.len(), |i: int| if 0 <= i < v.len() { v[i]@ } else { arbitrary() })
}

impl View for SupportsCondition {
    type V = Cond;

    open spec fn view(&self) -> Cond
        decreases self,
    {
        match self {
            SupportsCondition::Not(inner) => Cond::Not(Box::new((**inner)@)),
            SupportsCondition::And(items) => Cond::And(views_of(items@)),
            SupportsCondition::Or(items) => Cond::Or(views_of(items@)),
            SupportsCondition::Declaration { property_id, value } => Cond::Declaration {
                property: property_id@,
                value: value@,
            },
            SupportsCondition::Selector(s) => Cond::Selector(s@),
            SupportsCondition::Unknown(s) => Cond::Unknown(s@),
        }
    }
}

/// Copies a character vector.
pub fn clone_chars(s: &Vec<char>) -> (r: Vec<char>)
    ensures
        r@ == s@,
{
    let mut out: Vec<char> = Vec::new();
    let mut i: usize = 0;
    while i < s.len()
        invariant
            i <= s.len(),
            out@ == s@.take(i as int),
        decreases s.len() - i,
    {
        out.push(s[i]);
        i = i + 1;
        proof {
            assert(out@ =~= s@.take(i as int));
        }
    }
    proof {
        assert(s@.take(s.len() as int) =~= s@);
    }
    out
}

/// Compares two character vectors.
pub fn chars_eq(a: &Vec<char>, b: &Vec<char>) -> (r: bool)
    ensures
        r == (a@ == b@),
{
    if a.len() != b.len() {
        proof {
            assert(a@ != b@) by {
                assert(a@.len() != b@.len());
            }
        }
        return false;
    }
    let mut i: usize = 0;
    while i < a.len()
        invariant
            i <= a.len(),
            a.len() == b.len(),
            forall|j: int| 0 <= j < i ==> a@[j] == b@[j],
        decreases a.len() - i,
    {
        if a[i] != b[i] {
            return false;
        }
        i = i + 1;
    }
    proof {
        assert(a@ =~= b@);
    }
    true
}

impl SupportsCondition {
    /// Copies a condition tree; the copy has the same model.
    pub fn deep_clone(&self) -> (r: SupportsCondition)
        ensures
            r@ == self@,
        decreases self,
    {
        match self {
            SupportsCondition::Not(inner) => SupportsCondition::Not(Box::new(inner.deep_clone())),
            SupportsCondition::And(items) => SupportsCondition::And(clone_list(items)),
            SupportsCondition::Or(items) => SupportsCondition::Or(clone_list(items)),
            SupportsCondition::Declaration { property_id, value } => {
                SupportsCondition::Declaration {
                    property_id: property_id.deep_clone(),
                    value: clone_chars(value),
                }
            },
            SupportsCondition::Selector(s) => SupportsCondition::Selector(clone_chars(s)),
            SupportsCondition::Unknown(s) => SupportsCondition::Unknown(clone_chars(s)),
        }
    }

    /// Structural equality: same variant tag and recursively equal payloads.
    pub fn structural_eq(&self, other: &SupportsCondition) -> (r: bool)
        ensures
            r == (self@ == other@),
        decreases self,
    {
        match (self, other) {
            (SupportsCondition::Not(a), SupportsCondition::Not(b)) => a.structural_eq(b),
            (SupportsCondition::And(a), SupportsCondition::And(b)) => lists_eq(a, b),
            (SupportsCondition::Or(a), SupportsCondition::Or(b)) => lists_eq(a, b),
            (
                SupportsCondition::Declaration { property_id: pa, value: va },
                SupportsCondition::Declaration { property_id: pb, value: vb },
            ) => {
                let r = chars_eq(&pa.name, &pb.name) && pa.prefix == pb.prefix
                    && chars_eq(va, vb);
                r
            },
            (SupportsCondition::Selector(a), SupportsCondition::Selector(b)) => chars_eq(a, b),
            (SupportsCondition::Unknown(a), SupportsCondition::Unknown(b)) => chars_eq(a, b),
            _ => false,
        }
    }
}

/// Copies a list of condition trees.
pub fn clone_list(items: &Vec<SupportsCondition>) -> (r: Vec<SupportsCondition>)
    ensures
        views_of(r@) == views_of(items@),
        r@.len() == items@.len(),
    decreases items,
{
    let mut out: Vec<SupportsCondition> = Vec::new();
    let mut i: usize = 0;
    while i < items.len()
        invariant
            i <= items.len(),
            out@.len() == i,
            forall|j: int| 0 <= j < i ==> out@[j]@ == items@[j]@,
        decreases items.len() - i,
    {
        out.push(items[i].deep_clone());
        i = i + 1;
    }
    proof {
        assert(views_of(out@) =~= views_of(items@));
    }
    out
}

/// Compares two lists of condition trees element by element.
pub fn lists_eq(a: &Vec<SupportsCondition>, b: &Vec<SupportsCondition>) -> (r: bool)
    ensures
        r == (views_of(a@) == views_of(b@)),
    decreases a,
{
    if a.len() != b.len() {
        proof {
            assert(views_of(a@).len() != views_of(b@).len());
        }
        return false;
    }
    let mut i: usize = 0;
    while i < a.len()
        invariant
            i <= a.len(),
            a.len() == b.len(),
            forall|j: int| 0 <= j < i ==> views_of(a@)[j] == views_of(b@)[j],
        decreases a.len() - i,
    {
        if !a[i].structural_eq(&b[i]) {
            proof {
                assert(views_of(a@)[i as int] != views_of(b@)[i as int]);
            }
            return false;
        }
        i = i + 1;
    }
    proof {
        assert(views_of(a@) =~= views_of(b@));
    }
    true
}

} // verus!
