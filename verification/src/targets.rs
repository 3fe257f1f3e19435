//! The vendor-prefix expansion pass.
//!
//! A [`PrefixTable`] is the compiled answer of a browser-target compatibility
//! table: for each property name it lists the vendor prefixes the configured
//! targets require. The pass walks a condition tree and rewrites the prefix
//! set of every declaration whose property is unprefixed (or whose prefix set
//! is empty); properties absent from the table keep their original prefix set.

use vstd::prelude::*;
use crate::condition::{Cond, PropIdView, SupportsCondition};
use crate::vendor_prefix::VendorPrefixSet;

verus! {

/// One table row: a property name and the prefixes the targets require.
pub struct PrefixEntry {
    pub name: Vec<char>,
    pub prefixes: VendorPrefixSet,
}

impl View for PrefixEntry {
    type V = (Seq<char>, VendorPrefixSet);

    open spec fn view(&self) -> (Seq<char>, VendorPrefixSet) {
        (self.name@, self.prefixes)
    }
}

/// The prefixes that the configured targets require, per property name.
pub struct PrefixTable {
    pub entries: Vec<PrefixEntry>,
}

impl View for PrefixTable {
    type V = Seq<(Seq<char>, VendorPrefixSet)>;

    open spec fn view(&self) -> Seq<(Seq<char>, VendorPrefixSet)> {
        Seq::new(self.entries@.len(), |i: int| if 0 <= i < self.entries@.len() {
            self.entries@[i]@
        } else {
            arbitrary()
        })
    }
}

/// The first table row whose name matches, if any.
pub open spec fn lookup_spec(
    t: Seq<(Seq<char>, VendorPrefixSet)>,
    name: Seq<char>,
) -> Option<VendorPrefixSet>
    decreases t.len(),
{
    if t.len() == 0 {
        None
    } else if t[0].0 == name {
        Some(t[0].1)
    } else {
        lookup_spec(t.drop_first(), name)
    }
}

/// What the pass does to a declaration's property: a property whose prefix
/// set is empty or contains the unprefixed spelling is resolved against the
/// table; any other property, and any property the table does not know, is
/// left unchanged.
pub open spec fn resolve_property(
    p: PropIdView,
    t: Seq<(Seq<char>, VendorPrefixSet)>,
) -> PropIdView {
    if p.prefix.spec_is_empty() || p.prefix.none {
        match lookup_spec(t, p.name) {
            Some(found) => PropIdView { name: p.name, prefix: found },
            None => p,
        }
    } else {
        p
    }
}

/// What the pass does to the model of a condition tree.
pub open spec fn set_prefixes_spec(c: Cond, t: Seq<(Seq<char>, VendorPrefixSet)>) -> Cond
    decreases c,
{
    match c {
        Cond::Not(inner) => Cond::Not(Box::new(set_prefixes_spec(*inner, t))),
        Cond::And(items) => Cond::And(set_prefixes_items(items, t)),
        Cond::Or(items) => Cond::Or(set_prefixes_items(items, t)),
        Cond::Declaration { property, value } => Cond::Declaration {
            property: resolve_property(property, t),
            value,
        },
        Cond::Selector(s) => Cond::Selector(s),
        Cond::Unknown(s) => Cond::Unknown(s),
    }
}

/// The pass applied to every member of a list.
pub open spec fn set_prefixes_items(
    items: Seq<Cond>,
    t: Seq<(Seq<char>, VendorPrefixSet)>,
) -> Seq<Cond>
    decreases items,
{
    Seq::new(items.len(), |i: int| if 0 <= i < items.len() {
        set_prefixes_spec(items[i], t)
    } else {
        arbitrary()
    })
}

impl PrefixTable {
    /// Looks a property name up; returns the first matching row's prefixes.
    pub fn lookup(&self, name: &Vec<char>) -> (r: Option<VendorPrefixSet>)
        ensures
            r == lookup_spec(self@, name@),
    {
        let mut i: usize = 0;
        proof {
            assert(self@.skip(0) =~= self@);
        }
        while i < self.entries.len()
            invariant
                i <= self.entries.len(),
                lookup_spec(self@, name@) == lookup_spec(self@.skip(i as int), name@),
            decreases self.entries.len() - i,
        {
            proof {
                assert(self@.skip(i as int).drop_first() =~= self@.skip(i as int + 1));
            }
            if crate::condition::chars_eq(&self.entries[i].name, name) {
                proof {
                    assert(self@.skip(i as int)[0] == self@[i as int]);
                }
                return Some(self.entries[i].prefixes);
            }
            i = i + 1;
        }
        proof {
            assert(self@.skip(self.entries.len() as int).len() == 0);
        }
        None
    }
}

/// The pass on an owned tree.
fn set_prefixes_owned(c: SupportsCondition, targets: &PrefixTable) -> (r: SupportsCondition)
    ensures
        r@ == set_prefixes_spec(c@, targets@),
    decreases c,
{
    match c {
        SupportsCondition::Not(inner) => SupportsCondition::Not(
            Box::new(set_prefixes_owned(*inner, targets)),
        ),
        SupportsCondition::And(items) => SupportsCondition::And(
            set_prefixes_list(items, targets),
        ),
        SupportsCondition::Or(items) => SupportsCondition::Or(set_prefixes_list(items, targets)),
        SupportsCondition::Declaration { property_id, value } => {
            let is_candidate = property_id.prefix.is_empty() || property_id.prefix.none;
            if is_candidate {
                match targets.lookup(&property_id.name) {
                    Some(found) => SupportsCondition::Declaration {
                        property_id: crate::condition::PropertyId {
                            name: property_id.name,
                            prefix: found,
                        },
                        value,
                    },
                    None => SupportsCondition::Declaration { property_id, value },
                }
            } else {
                SupportsCondition::Declaration { property_id, value }
            }
        },
        SupportsCondition::Selector(s) => SupportsCondition::Selector(s),
        SupportsCondition::Unknown(s) => SupportsCondition::Unknown(s),
    }
}

/// The pass on every member of an owned list, order kept.
fn set_prefixes_list(items: Vec<SupportsCondition>, targets: &PrefixTable) -> (r: Vec<
    SupportsCondition,
>)
    ensures
        crate::condition::views_of(r@) == set_prefixes_items(
            crate::condition::views_of(items@),
            targets@,
        ),
    decreases items@,
{
    let ghost items0 = items@;
    let mut items = items;
    if items.len() == 0 {
        proof {
            assert(crate::condition::views_of(items@) =~= set_prefixes_items(
                crate::condition::views_of(items0),
                targets@,
            ));
        }
        items
    } else {
        let first = items.remove(0);
        proof {
            assert(items@ =~= items0.subrange(1, items0.len() as int));
        }
        let first = set_prefixes_owned(first, targets);
        let mut out = set_prefixes_list(items, targets);
        let ghost rest0 = out@;
        out.insert(0, first);
        proof {
            let vs0 = crate::condition::views_of(items0);
            let lhs = crate::condition::views_of(out@);
            let rhs = set_prefixes_items(vs0, targets@);
            assert(crate::condition::views_of(rest0) =~= set_prefixes_items(
                crate::condition::views_of(items0.subrange(1, items0.len() as int)),
                targets@,
            ));
            assert(out@ =~= rest0.insert(0, first));
            assert forall|k: int| 0 <= k < lhs.len() implies lhs[k] == rhs[k] by {
                if k >= 1 {
                    assert(out@[k] == rest0[k - 1]);
                    assert(crate::condition::views_of(rest0)[k - 1] == set_prefixes_items(
                        crate::condition::views_of(items0.subrange(1, items0.len() as int)),
                        targets@,
                    )[k - 1]);
                    assert(crate::condition::views_of(
                        items0.subrange(1, items0.len() as int),
                    )[k - 1] == vs0[k]);
                } else {
                    assert(out@[0] == first);
                }
            }
            assert(lhs =~= rhs);
        }
        out
    }
}

impl SupportsCondition {
    /// Rewrites, throughout the tree, the prefix set of every declaration
    /// whose property the table resolves.
    pub fn set_prefixes_for_targets(&mut self, targets: &PrefixTable)
        ensures
            final(self)@ == set_prefixes_spec(old(self)@, targets@),
    {
        let mut tmp = SupportsCondition::Unknown(Vec::new());
        core::mem::swap(self, &mut tmp);
        let mut done = set_prefixes_owned(tmp, targets);
        core::mem::swap(self, &mut done);
    }
}

} // verus!
