//! The `@supports` rule: a condition gating a block of nested rules.
//!
//! The nested rule block itself and the output writer are outside
//! collaborators; this type owns the condition and the rule's source
//! location, runs the vendor-prefix pass over the condition when targets are
//! configured, and renders the rule's prelude. The caller serializes the
//! nested block after the prelude.

use vstd::prelude::*;
use crate::condition::SupportsCondition;
use crate::printer::to_css_spec;
use crate::targets::{PrefixTable, set_prefixes_spec};

verus! {

/// The position of a rule in its source file.
#[derive(PartialEq, Eq, Structural, Clone, Copy, Debug)]
pub struct Location {
    /// The index of the source file.
    pub source_index: u32,
    /// The line number, starting at 0.
    pub line: u32,
    /// The column number, starting at 1.
    pub column: u32,
}

/// A `@supports` rule's verified part: its condition and its location.
pub struct SupportsRule {
    /// The supports condition.
    pub condition: SupportsCondition,
    /// The location of the rule in the source file.
    pub loc: Location,
}

impl SupportsRule {
    /// The minification step on the condition: when targets are configured,
    /// the vendor-prefix pass rewrites the condition's declarations. The
    /// nested rule block's own minification is the caller's affair.
    pub fn minify(&mut self, targets: Option<&PrefixTable>)
        ensures
            final(self).loc == old(self).loc,
            match targets {
                Some(t) => final(self).condition@ == set_prefixes_spec(old(self).condition@, t@),
                None => final(self).condition@ == old(self).condition@,
            },
    {
        match targets {
            Some(t) => self.condition.set_prefixes_for_targets(t),
            None => {},
        }
    }

    /// Renders `@supports ` followed by the printed condition; the caller
    /// appends the nested block.
    pub fn to_css_prelude(&self) -> (r: Vec<char>)
        ensures
            r@ == seq!['@', 's', 'u', 'p', 'p', 'o', 'r', 't', 's', ' '] + to_css_spec(
                self.condition@,
            ),
    {
        let mut out: Vec<char> = Vec::new();
        out.push('@');
        out.push('s');
        out.push('u');
        out.push('p');
        out.push('p');
        out.push('o');
        out.push('r');
        out.push('t');
        out.push('s');
        out.push(' ');
        proof {
            assert(out@ =~= seq!['@', 's', 'u', 'p', 'p', 'o', 'r', 't', 's', ' ']);
        }
        self.condition.write_css(&mut out);
        out
    }
}

} // verus!
