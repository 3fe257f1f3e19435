//! The precedence-aware printer: serializes a condition tree back to
//! grammar-legal text, parenthesizing only where operator precedence
//! requires it.

use vstd::prelude::*;
use crate::condition::{Cond, PropIdView, PropertyId, SupportsCondition, views_of};
use crate::vendor_prefix::{VendorPrefix, VendorPrefixSet, prefix_chars, prefix_list};

verus! {

/// Whether `c`, printed directly under `parent`, must be parenthesized:
/// a negation always, a conjunction unless the parent is a conjunction, a
/// disjunction unless the parent is a disjunction; declarations, selector
/// checks and unknown text are self-delimiting.
pub open spec fn needs_parens_spec(c: Cond, parent: Cond) -> bool {
    match c {
        Cond::Not(_) => true,
        Cond::And(_) => !(parent is And),
        Cond::Or(_) => !(parent is Or),
        _ => false,
    }
}

/// The separator a list parent puts between its members.
pub open spec fn sep_of(parent: Cond) -> Seq<char> {
    if parent is And {
        seq![' ', 'a', 'n', 'd', ' ']
    } else {
        seq![' ', 'o', 'r', ' ']
    }
}

/// One prefixed declaration clause: prefix, name, `: `, value.
pub open spec fn decl_clause(p: VendorPrefix, name: Seq<char>, value: Seq<char>) -> Seq<char> {
    prefix_chars(p) + name + seq![':', ' '] + value
}

/// All clauses of a declaration, joined by `) or (`.
pub open spec fn decl_join(ps: Seq<VendorPrefix>, name: Seq<char>, value: Seq<char>) -> Seq<char>
    decreases ps.len(),
{
    if ps.len() == 0 {
        Seq::empty()
    } else {
        decl_clause(ps[0], name, value) + decl_rest(ps.drop_first(), name, value)
    }
}

/// The clauses after the first, each preceded by `) or (`.
pub open spec fn decl_rest(ps: Seq<VendorPrefix>, name: Seq<char>, value: Seq<char>) -> Seq<char>
    decreases ps.len(),
{
    if ps.len() == 0 {
        Seq::empty()
    } else {
        seq![')', ' ', 'o', 'r', ' ', '('] + decl_clause(ps[0], name, value) + decl_rest(
            ps.drop_first(),
            name,
            value,
        )
    }
}

/// The printed form of a declaration condition: one parenthesized clause per
/// applicable prefix, with an extra pair of parentheses when more than the
/// unprefixed spelling applies.
pub open spec fn decl_css(property: PropIdView, value: Seq<char>) -> Seq<char> {
    let p = property.prefix.spec_or_none();
    let inner = decl_join(prefix_list(p), property.name, value);
    if p == VendorPrefixSet::spec_none_only() {
        seq!['('] + inner + seq![')']
    } else {
        seq!['(', '('] + inner + seq![')', ')']
    }
}

/// The printed form of a condition tree.
pub open spec fn to_css_spec(c: Cond) -> Seq<char>
    decreases c, 1int,
{
    match c {
        Cond::Not(inner) => seq!['n', 'o', 't', ' '] + item_css(*inner, c),
        Cond::And(items) => cond_join(items, c),
        Cond::Or(items) => cond_join(items, c),
        Cond::Declaration { property, value } => decl_css(property, value),
        Cond::Selector(s) => seq!['s', 'e', 'l', 'e', 'c', 't', 'o', 'r', '('] + s + seq![')'],
        Cond::Unknown(s) => s,
    }
}

/// The printed form of one list member, parenthesized if precedence requires.
pub open spec fn item_css(c: Cond, parent: Cond) -> Seq<char>
    decreases c, 2int,
{
    if needs_parens_spec(c, parent) {
        seq!['('] + to_css_spec(c) + seq![')']
    } else {
        to_css_spec(c)
    }
}

/// The printed members of a list, joined by the parent's separator.
pub open spec fn cond_join(items: Seq<Cond>, parent: Cond) -> Seq<char>
    decreases items, 0int,
{
    if items.len() == 0 {
        Seq::empty()
    } else {
        item_css(items[0], parent) + cond_rest(items.drop_first(), parent)
    }
}

/// The members after the first, each preceded by the parent's separator.
pub open spec fn cond_rest(items: Seq<Cond>, parent: Cond) -> Seq<char>
    decreases items, 0int,
{
    if items.len() == 0 {
        Seq::empty()
    } else {
        sep_of(parent) + item_css(items[0], parent) + cond_rest(items.drop_first(), parent)
    }
}

/// Appends the characters of `s` to `out`.
pub fn append_chars(out: &mut Vec<char>, s: &Vec<char>)
    ensures
        final(out)@ == old(out)@ + s@,
{
    let mut i: usize = 0;
    while i < s.len()
        invariant
            i <= s.len(),
            out@ == old(out)@ + s@.take(i as int),
        decreases s.len() - i,
    {
        out.push(s[i]);
        i = i + 1;
        proof {
            assert(old(out)@ + s@.take(i as int) =~= (old(out)@ + s@.take(i as int - 1)).push(
                s@[i as int - 1],
            ));
        }
    }
    proof {
        assert(s@.take(s.len() as int) =~= s@);
    }
}

/// Writes the characters of one vendor prefix.
fn write_prefix(out: &mut Vec<char>, p: VendorPrefix)
    ensures
        final(out)@ == old(out)@ + prefix_chars(p),
{
    match p {
        VendorPrefix::NoPrefix => {
            proof {
                assert(out@ =~= old(out)@ + prefix_chars(p));
            }
        },
        VendorPrefix::WebKit => {
            out.push('-');
            out.push('w');
            out.push('e');
            out.push('b');
            out.push('k');
            out.push('i');
            out.push('t');
            out.push('-');
            proof {
                assert(out@ =~= old(out)@ + prefix_chars(p));
            }
        },
        VendorPrefix::Moz => {
            out.push('-');
            out.push('m');
            out.push('o');
            out.push('z');
            out.push('-');
            proof {
                assert(out@ =~= old(out)@ + prefix_chars(p));
            }
        },
        VendorPrefix::Ms => {
            out.push('-');
            out.push('m');
            out.push('s');
            out.push('-');
            proof {
                assert(out@ =~= old(out)@ + prefix_chars(p));
            }
        },
        VendorPrefix::O => {
            out.push('-');
            out.push('o');
            out.push('-');
            proof {
                assert(out@ =~= old(out)@ + prefix_chars(p));
            }
        },
    }
}

/// Writes one declaration clause: prefix, name, `: `, value.
fn write_decl_clause(out: &mut Vec<char>, p: VendorPrefix, name: &Vec<char>, value: &Vec<char>)
    ensures
        final(out)@ == old(out)@ + decl_clause(p, name@, value@),
{
    write_prefix(out, p);
    append_chars(out, name);
    out.push(':');
    out.push(' ');
    append_chars(out, value);
    proof {
        assert(out@ =~= old(out)@ + decl_clause(p, name@, value@));
    }
}

/// The prefixes of a set in canonical order, as a vector.
fn prefix_vec(s: VendorPrefixSet) -> (r: Vec<VendorPrefix>)
    ensures
        r@ == prefix_list(s),
{
    let mut v: Vec<VendorPrefix> = Vec::new();
    if s.none {
        v.push(VendorPrefix::NoPrefix);
    }
    if s.webkit {
        v.push(VendorPrefix::WebKit);
    }
    if s.moz {
        v.push(VendorPrefix::Moz);
    }
    if s.ms {
        v.push(VendorPrefix::Ms);
    }
    if s.o {
        v.push(VendorPrefix::O);
    }
    proof {
        assert(v@ =~= prefix_list(s));
    }
    v
}

/// Appends the printed form of one declaration condition.
#[verifier::rlimit(50)]
fn write_declaration(out: &mut Vec<char>, property_id: &PropertyId, value: &Vec<char>)
    ensures
        final(out)@ == old(out)@ + decl_css(property_id@, value@),
{
    let ghost base = out@;
    out.push('(');
    let pfx = property_id.prefix.or_none();
    let multi = !(pfx == VendorPrefixSet::none_only());
    if multi {
        out.push('(');
    }
    let ghost opened = out@;
    let ps = prefix_vec(pfx);
    let ghost plist = prefix_list(pfx);
    let mut i: usize = 0;
    while i < ps.len()
        invariant
            i <= ps.len(),
            ps@ == plist,
            i == 0 ==> out@ == opened,
            i >= 1 ==> out@ + decl_rest(plist.skip(i as int), property_id@.name, value@) == opened
                + decl_join(plist, property_id@.name, value@),
        decreases ps.len() - i,
    {
        let ghost before = out@;
        if i != 0 {
            out.push(')');
            out.push(' ');
            out.push('o');
            out.push('r');
            out.push(' ');
            out.push('(');
            proof {
                assert(out@ =~= before + seq![')', ' ', 'o', 'r', ' ', '(']);
            }
        }
        write_decl_clause(out, ps[i], &property_id.name, value);
        proof {
            let nm = property_id@.name;
            let vl = value@;
            assert(plist.skip(i as int).drop_first() =~= plist.skip(i as int + 1));
            if i == 0 {
                assert(out@ =~= opened + decl_clause(plist[0], nm, vl));
                assert(decl_join(plist, nm, vl) == decl_clause(plist[0], nm, vl) + decl_rest(
                    plist.skip(1),
                    nm,
                    vl,
                ));
                assert(out@ + decl_rest(plist.skip(1), nm, vl) =~= opened + decl_join(
                    plist,
                    nm,
                    vl,
                ));
            } else {
                assert(decl_rest(plist.skip(i as int), nm, vl) == seq![')', ' ', 'o', 'r', ' ', '(']
                    + decl_clause(plist[i as int], nm, vl) + decl_rest(
                    plist.skip(i as int + 1),
                    nm,
                    vl,
                ));
                assert(out@ =~= before + seq![')', ' ', 'o', 'r', ' ', '('] + decl_clause(
                    plist[i as int],
                    nm,
                    vl,
                ));
                assert(out@ + decl_rest(plist.skip(i as int + 1), nm, vl) =~= before + decl_rest(
                    plist.skip(i as int),
                    nm,
                    vl,
                ));
            }
        }
        i = i + 1;
    }
    proof {
        let nm = property_id@.name;
        let vl = value@;
        if ps.len() == 0 {
            assert(decl_join(plist, nm, vl) == Seq::<char>::empty());
            assert(out@ =~= opened + decl_join(plist, nm, vl));
        } else {
            assert(plist.skip(ps.len() as int).len() == 0);
            assert(decl_rest(plist.skip(ps.len() as int), nm, vl) == Seq::<char>::empty());
            assert(out@ + Seq::<char>::empty() =~= out@);
            assert(out@ =~= opened + decl_join(plist, nm, vl));
        }
    }
    if multi {
        out.push(')');
    }
    out.push(')');
    proof {
        assert(out@ =~= base + decl_css(property_id@, value@));
    }
}

impl SupportsCondition {
    /// Whether this condition, printed directly under `parent`, must be
    /// parenthesized.
    pub fn needs_parens(&self, parent: &SupportsCondition) -> (r: bool)
        ensures
            r == needs_parens_spec(self@, parent@),
    {
        match self {
            SupportsCondition::Not(_) => true,
            SupportsCondition::And(_) => !matches!(parent, SupportsCondition::And(_)),
            SupportsCondition::Or(_) => !matches!(parent, SupportsCondition::Or(_)),
            _ => false,
        }
    }

    /// Serializes this condition to grammar-legal text.
    pub fn to_css(&self) -> (r: Vec<char>)
        ensures
            r@ == to_css_spec(self@),
    {
        let mut out: Vec<char> = Vec::new();
        self.write_css(&mut out);
        out
    }

    /// Appends the printed form of this condition to `out`.
    pub fn write_css(&self, out: &mut Vec<char>)
        ensures
            final(out)@ == old(out)@ + to_css_spec(self@),
        decreases self, 1int,
    {
        let ghost base = out@;
        match self {
            SupportsCondition::Not(inner) => {
                out.push('n');
                out.push('o');
                out.push('t');
                out.push(' ');
                proof {
                    assert(out@ =~= base + seq!['n', 'o', 't', ' ']);
                }
                inner.write_css_with_parens_if_needed(out, self);
                proof {
                    assert(out@ =~= base + to_css_spec(self@));
                }
            },
            SupportsCondition::And(items) => {
                write_list(out, items, self);
            },
            SupportsCondition::Or(items) => {
                write_list(out, items, self);
            },
            SupportsCondition::Declaration { property_id, value } => {
                write_declaration(out, property_id, value);
            },
            SupportsCondition::Selector(s) => {
                out.push('s');
                out.push('e');
                out.push('l');
                out.push('e');
                out.push('c');
                out.push('t');
                out.push('o');
                out.push('r');
                out.push('(');
                append_chars(out, s);
                out.push(')');
                proof {
                    assert(out@ =~= base + to_css_spec(self@));
                }
            },
            SupportsCondition::Unknown(s) => {
                append_chars(out, s);
            },
        }
    }

    /// Appends the printed form of this condition, parenthesized if the
    /// parent's precedence requires it.
    pub fn write_css_with_parens_if_needed(
        &self,
        out: &mut Vec<char>,
        parent: &SupportsCondition,
    )
        ensures
            final(out)@ == old(out)@ + item_css(self@, parent@),
        decreases self, 2int,
    {
        let ghost base = out@;
        if self.needs_parens(parent) {
            out.push('(');
            self.write_css(out);
            out.push(')');
            proof {
                assert(out@ =~= base + item_css(self@, parent@));
            }
        } else {
            self.write_css(out);
        }
    }
}

/// Appends the printed members of a list, joined by the parent's separator.
fn write_list(out: &mut Vec<char>, items: &Vec<SupportsCondition>, parent: &SupportsCondition)
    requires
        parent@ == Cond::And(views_of(items@)) || parent@ == Cond::Or(views_of(items@)),
    ensures
        final(out)@ == old(out)@ + to_css_spec(parent@),
    decreases items, 0int,
{
    let ghost base = out@;
    let ghost vs = views_of(items@);
    let ghost p = parent@;
    proof {
        assert(to_css_spec(p) == cond_join(vs, p));
    }
    let mut i: usize = 0;
    while i < items.len()
        invariant
            i <= items.len(),
            vs == views_of(items@),
            p == parent@,
            p == Cond::And(vs) || p == Cond::Or(vs),
            i == 0 ==> out@ == base,
            i >= 1 ==> out@ + cond_rest(vs.skip(i as int), p) == base + cond_join(vs, p),
        decreases items.len() - i,
    {
        let ghost before = out@;
        if i != 0 {
            if matches!(parent, SupportsCondition::And(_)) {
                out.push(' ');
                out.push('a');
                out.push('n');
                out.push('d');
                out.push(' ');
            } else {
                out.push(' ');
                out.push('o');
                out.push('r');
                out.push(' ');
            }
            proof {
                assert(out@ =~= before + sep_of(p));
            }
        }
        let ghost mid = out@;
        items[i].write_css_with_parens_if_needed(out, parent);
        proof {
            assert(vs[i as int] == items@[i as int]@);
            assert(vs.skip(i as int).drop_first() =~= vs.skip(i as int + 1));
            if i == 0 {
                assert(out@ =~= base + item_css(vs[0], p));
                assert(cond_join(vs, p) == item_css(vs[0], p) + cond_rest(vs.skip(1), p));
                assert(out@ + cond_rest(vs.skip(1), p) =~= base + cond_join(vs, p));
            } else {
                assert(cond_rest(vs.skip(i as int), p) == sep_of(p) + item_css(vs[i as int], p)
                    + cond_rest(vs.skip(i as int + 1), p));
                assert(out@ =~= before + sep_of(p) + item_css(vs[i as int], p));
                assert(out@ + cond_rest(vs.skip(i as int + 1), p) =~= before + cond_rest(
                    vs.skip(i as int),
                    p,
                ));
            }
        }
        i = i + 1;
    }
    proof {
        if items.len() == 0 {
            assert(cond_join(vs, p) == Seq::<char>::empty());
            assert(out@ =~= base + cond_join(vs, p));
        } else {
            assert(vs.skip(items.len() as int).len() == 0);
            assert(cond_rest(vs.skip(items.len() as int), p) == Seq::<char>::empty());
            assert(out@ + Seq::<char>::empty() =~= out@);
            assert(out@ =~= base + cond_join(vs, p));
        }
    }
}

} // verus!
