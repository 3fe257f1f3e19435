//! The `and` / `or` combinators: merge one condition into another in place,
//! deduplicating structurally equal members.

use vstd::prelude::*;
use crate::condition::{Cond, SupportsCondition, views_of};

verus! {

/// What `and` does to the model: a condition combined with a structurally
/// equal one is left unchanged; otherwise the new member is appended to an
/// existing conjunction unless a structurally equal member is already
/// present, and any other receiver becomes a two-member conjunction.
pub open spec fn and_spec(a: Cond, b: Cond) -> Cond {
    if a == b {
        a
    } else {
        match a {
            Cond::And(items) => if items.contains(b) {
                Cond::And(items)
            } else {
                Cond::And(items.push(b))
            },
            _ => Cond::And(seq![a, b]),
        }
    }
}

/// What `or` does to the model, dually to [`and_spec`].
pub open spec fn or_spec(a: Cond, b: Cond) -> Cond {
    if a == b {
        a
    } else {
        match a {
            Cond::Or(items) => if items.contains(b) {
                Cond::Or(items)
            } else {
                Cond::Or(items.push(b))
            },
            _ => Cond::Or(seq![a, b]),
        }
    }
}

/// Whether the list holds a member structurally equal to `b`.
pub fn contains_condition(items: &Vec<SupportsCondition>, b: &SupportsCondition) -> (r: bool)
    ensures
        r == views_of(items@).contains(b@),
{
    let mut i: usize = 0;
    while i < items.len()
        invariant
            i <= items.len(),
            forall|j: int| 0 <= j < i ==> views_of(items@)[j] != b@,
        decreases items.len() - i,
    {
        if items[i].structural_eq(b) {
            proof {
                assert(views_of(items@)[i as int] == b@);
            }
            return true;
        }
        i = i + 1;
    }
    proof {
        assert(!views_of(items@).contains(b@)) by {
            assert(forall|j: int|
                0 <= j < views_of(items@).len() ==> views_of(items@)[j] != b@);
        }
    }
    false
}

impl SupportsCondition {
    /// Combines the given supports condition into this one with an `and`
    /// expression. Combining a condition with a structurally equal one is a
    /// no-op.
    pub fn and(&mut self, b: &SupportsCondition)
        ensures
            final(self)@ == and_spec(old(self)@, b@),
    {
        let ghost a0 = self@;
        if self.structural_eq(b) {
            return;
        }
        let is_and = matches!(&*self, SupportsCondition::And(_));
        if is_and {
            match self {
                SupportsCondition::And(items) => {
                    let ghost items0 = views_of(items@);
                    proof {
                        assert(a0 == Cond::And(items0));
                    }
                    if !contains_condition(items, b) {
                        items.push(b.deep_clone());
                        proof {
                            assert(views_of(items@) =~= items0.push(b@));
                        }
                    }
                },
                _ => {
                    proof {
                        assert(false);
                    }
                },
            }
        } else {
            proof {
                assert(!(a0 is And));
            }
            let cur = self.deep_clone();
            let pair = two_member_list(cur, b.deep_clone());
            *self = SupportsCondition::And(pair);
        }
    }

    /// Combines the given supports condition into this one with an `or`
    /// expression. Combining a condition with a structurally equal one is a
    /// no-op.
    pub fn or(&mut self, b: &SupportsCondition)
        ensures
            final(self)@ == or_spec(old(self)@, b@),
    {
        let ghost a0 = self@;
        if self.structural_eq(b) {
            return;
        }
        let is_or = matches!(&*self, SupportsCondition::Or(_));
        if is_or {
            match self {
                SupportsCondition::Or(items) => {
                    let ghost items0 = views_of(items@);
                    proof {
                        assert(a0 == Cond::Or(items0));
                    }
                    if !contains_condition(items, b) {
                        items.push(b.deep_clone());
                        proof {
                            assert(views_of(items@) =~= items0.push(b@));
                        }
                    }
                },
                _ => {
                    proof {
                        assert(false);
                    }
                },
            }
        } else {
            proof {
                assert(!(a0 is Or));
            }
            let cur = self.deep_clone();
            let pair = two_member_list(cur, b.deep_clone());
            *self = SupportsCondition::Or(pair);
        }
    }
}

/// Builds a two-member list.
fn two_member_list(a: SupportsCondition, b: SupportsCondition) -> (r: Vec<SupportsCondition>)
    ensures
        views_of(r@) == seq![a@, b@],
{
    let mut v: Vec<SupportsCondition> = Vec::new();
    v.push(a);
    v.push(b);
    proof {
        assert(views_of(v@) =~= seq![a@, b@]);
    }
    v
}

} // verus!
