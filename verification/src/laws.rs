//! Laws of the combinators and of the printer's parenthesization, proved
//! over the mathematical models.

use vstd::prelude::*;
use crate::condition::{Cond, wf_cond, wf_items};
use crate::combinators::{and_spec, or_spec};
use crate::printer::needs_parens_spec;
use crate::targets::{set_prefixes_items, set_prefixes_spec};
use crate::vendor_prefix::VendorPrefixSet;

verus! {

/// No duplicate members at the top of a condition: a conjunction or
/// disjunction never holds two structurally equal members.
pub open spec fn distinct_members(c: Cond) -> bool {
    match c {
        Cond::And(items) => forall|i: int, j: int|
            0 <= i < j < items.len() ==> items[i] != items[j],
        Cond::Or(items) => forall|i: int, j: int|
            0 <= i < j < items.len() ==> items[i] != items[j],
        _ => true,
    }
}

/// Combining a condition with itself under `and` leaves it unchanged.
pub proof fn lemma_and_idempotent(x: Cond)
    ensures
        and_spec(x, x) == x,
{
}

/// Combining a condition with itself under `or` leaves it unchanged.
pub proof fn lemma_or_idempotent(x: Cond)
    ensures
        or_spec(x, x) == x,
{
}

/// `and` never introduces a duplicate member: if the receiver has no two
/// structurally equal members, neither has the combination.
pub proof fn lemma_and_no_duplicates(x: Cond, b: Cond)
    requires
        distinct_members(x),
    ensures
        distinct_members(and_spec(x, b)),
{
    if x != b {
        match x {
            Cond::And(items) => {
                if !items.contains(b) {
                    let post = items.push(b);
                    assert forall|i: int, j: int|
                        0 <= i < j < post.len() implies post[i] != post[j] by {
                        if j == items.len() {
                            assert(post[i] == items[i]);
                            if items[i] == b {
                                assert(items.contains(b));
                            }
                        } else {
                            assert(post[i] == items[i]);
                            assert(post[j] == items[j]);
                        }
                    }
                }
            },
            _ => {
                let pair = seq![x, b];
                assert(pair[0] == x && pair[1] == b);
            },
        }
    }
}

/// `or` never introduces a duplicate member, dually.
pub proof fn lemma_or_no_duplicates(x: Cond, b: Cond)
    requires
        distinct_members(x),
    ensures
        distinct_members(or_spec(x, b)),
{
    if x != b {
        match x {
            Cond::Or(items) => {
                if !items.contains(b) {
                    let post = items.push(b);
                    assert forall|i: int, j: int|
                        0 <= i < j < post.len() implies post[i] != post[j] by {
                        if j == items.len() {
                            assert(post[i] == items[i]);
                            if items[i] == b {
                                assert(items.contains(b));
                            }
                        } else {
                            assert(post[i] == items[i]);
                            assert(post[j] == items[j]);
                        }
                    }
                }
            },
            _ => {
                let pair = seq![x, b];
                assert(pair[0] == x && pair[1] == b);
            },
        }
    }
}

/// `and` keeps every conjunction and disjunction of the tree at two or more
/// members: combining two well-formed conditions yields a well-formed
/// condition.
pub proof fn lemma_and_min_size(x: Cond, b: Cond)
    requires
        wf_cond(x),
        wf_cond(b),
    ensures
        wf_cond(and_spec(x, b)),
{
    if x != b {
        match x {
            Cond::And(items) => {
                if !items.contains(b) {
                    let post = items.push(b);
                    assert(wf_items(items));
                    assert forall|i: int| 0 <= i < post.len() implies wf_cond(
                        #[trigger] post[i],
                    ) by {
                        if i < items.len() {
                            assert(post[i] == items[i]);
                        } else {
                            assert(post[i] == b);
                        }
                    }
                    assert(wf_items(post));
                }
            },
            _ => {
                let pair = seq![x, b];
                assert(pair.len() == 2);
                assert forall|i: int| 0 <= i < pair.len() implies wf_cond(#[trigger] pair[i]) by {
                    if i == 0 {
                        assert(pair[0] == x);
                    } else {
                        assert(pair[1] == b);
                    }
                }
                assert(wf_items(pair));
            },
        }
    }
}

/// `or` keeps every conjunction and disjunction of the tree at two or more
/// members, dually.
pub proof fn lemma_or_min_size(x: Cond, b: Cond)
    requires
        wf_cond(x),
        wf_cond(b),
    ensures
        wf_cond(or_spec(x, b)),
{
    if x != b {
        match x {
            Cond::Or(items) => {
                if !items.contains(b) {
                    let post = items.push(b);
                    assert(wf_items(items));
                    assert forall|i: int| 0 <= i < post.len() implies wf_cond(
                        #[trigger] post[i],
                    ) by {
                        if i < items.len() {
                            assert(post[i] == items[i]);
                        } else {
                            assert(post[i] == b);
                        }
                    }
                    assert(wf_items(post));
                }
            },
            _ => {
                let pair = seq![x, b];
                assert(pair.len() == 2);
                assert forall|i: int| 0 <= i < pair.len() implies wf_cond(#[trigger] pair[i]) by {
                    if i == 0 {
                        assert(pair[0] == x);
                    } else {
                        assert(pair[1] == b);
                    }
                }
                assert(wf_items(pair));
            },
        }
    }
}

/// The vendor-prefix pass never changes the shape of the tree: a well-formed
/// condition stays well formed, whatever the table holds.
pub proof fn lemma_set_prefixes_preserves_wf(c: Cond, t: Seq<(Seq<char>, VendorPrefixSet)>)
    requires
        wf_cond(c),
    ensures
        wf_cond(set_prefixes_spec(c, t)),
    decreases c,
{
    match c {
        Cond::Not(inner) => {
            lemma_set_prefixes_preserves_wf(*inner, t);
        },
        Cond::And(items) => {
            let post = set_prefixes_items(items, t);
            assert(post.len() == items.len());
            assert(wf_items(items));
            assert forall|i: int| 0 <= i < post.len() implies wf_cond(#[trigger] post[i]) by {
                assert(wf_cond(items[i]));
                lemma_set_prefixes_preserves_wf(items[i], t);
                assert(post[i] == set_prefixes_spec(items[i], t));
            }
            assert(wf_items(post));
        },
        Cond::Or(items) => {
            let post = set_prefixes_items(items, t);
            assert(post.len() == items.len());
            assert(wf_items(items));
            assert forall|i: int| 0 <= i < post.len() implies wf_cond(#[trigger] post[i]) by {
                assert(wf_cond(items[i]));
                lemma_set_prefixes_preserves_wf(items[i], t);
                assert(post[i] == set_prefixes_spec(items[i], t));
            }
            assert(wf_items(post));
        },
        _ => {},
    }
}

/// The printer's parenthesization is minimal: a conjunction directly under a
/// conjunction (and a disjunction under a disjunction) is never
/// parenthesized; a conjunction under anything else — a disjunction or a
/// negation — always is, and dually; a negation is always parenthesized as a
/// member; declarations, selector checks and unknown text never get added
/// parentheses.
pub proof fn lemma_parenthesization(c: Cond, parent: Cond)
    ensures
        c is And && parent is And ==> !needs_parens_spec(c, parent),
        c is Or && parent is Or ==> !needs_parens_spec(c, parent),
        c is And && !(parent is And) ==> needs_parens_spec(c, parent),
        c is Or && !(parent is Or) ==> needs_parens_spec(c, parent),
        c is Not ==> needs_parens_spec(c, parent),
        c is Declaration || c is Selector || c is Unknown ==> !needs_parens_spec(c, parent),
{
}

} // verus!
