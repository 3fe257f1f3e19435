//! Vendor prefixes and sets of vendor prefixes.
//!
//! A property identifier carries a set of vendor prefixes; the printer emits
//! one declaration clause per prefix in the set, in canonical order
//! (unprefixed first, then `-webkit-`, `-moz-`, `-ms-`, `-o-`).

use vstd::prelude::*;

verus! {

/// One vendor prefix. `NoPrefix` stands for the unprefixed spelling.
#[derive(PartialEq, Eq, Structural, Clone, Copy, Debug)]
pub enum VendorPrefix {
    NoPrefix,
    WebKit,
    Moz,
    Ms,
    O,
}

/// A set of vendor prefixes, one flag per known prefix.
#[derive(PartialEq, Eq, Structural, Clone, Copy, Debug)]
pub struct VendorPrefixSet {
    pub none: bool,
    pub webkit: bool,
    pub moz: bool,
    pub ms: bool,
    pub o: bool,
}

impl VendorPrefixSet {
    /// The empty set: no prefix is known for the property.
    pub open spec fn spec_empty() -> VendorPrefixSet {
        VendorPrefixSet { none: false, webkit: false, moz: false, ms: false, o: false }
    }

    /// The set holding only the unprefixed spelling.
    pub open spec fn spec_none_only() -> VendorPrefixSet {
        VendorPrefixSet { none: true, webkit: false, moz: false, ms: false, o: false }
    }

    pub open spec fn spec_is_empty(self) -> bool {
        !self.none && !self.webkit && !self.moz && !self.ms && !self.o
    }

    /// The set used at print time: an empty set prints as the unprefixed
    /// spelling alone.
    pub open spec fn spec_or_none(self) -> VendorPrefixSet {
        if self.spec_is_empty() {
            VendorPrefixSet::spec_none_only()
        } else {
            self
        }
    }

    pub fn empty() -> (r: VendorPrefixSet)
        ensures
            r == VendorPrefixSet::spec_empty(),
    {
        VendorPrefixSet { none: false, webkit: false, moz: false, ms: false, o: false }
    }

    pub fn none_only() -> (r: VendorPrefixSet)
        ensures
            r == VendorPrefixSet::spec_none_only(),
    {
        VendorPrefixSet { none: true, webkit: false, moz: false, ms: false, o: false }
    }

    pub fn is_empty(&self) -> (r: bool)
        ensures
            r == self.spec_is_empty(),
    {
        !self.none && !self.webkit && !self.moz && !self.ms && !self.o
    }

    pub fn or_none(&self) -> (r: VendorPrefixSet)
        ensures
            r == self.spec_or_none(),
    {
        if self.is_empty() {
            VendorPrefixSet::none_only()
        } else {
            *self
        }
    }
}

/// The characters a prefix contributes before the property name.
pub open spec fn prefix_chars(p: VendorPrefix) -> Seq<char> {
    match p {
        VendorPrefix::NoPrefix => Seq::empty(),
        VendorPrefix::WebKit => seq!['-', 'w', 'e', 'b', 'k', 'i', 't', '-'],
        VendorPrefix::Moz => seq!['-', 'm', 'o', 'z', '-'],
        VendorPrefix::Ms => seq!['-', 'm', 's', '-'],
        VendorPrefix::O => seq!['-', 'o', '-'],
    }
}

/// The prefixes of a set in canonical order: unprefixed first, then
/// `-webkit-`, `-moz-`, `-ms-`, `-o-`.
pub open spec fn prefix_list(s: VendorPrefixSet) -> Seq<VendorPrefix> {
    (if s.none {
        seq![VendorPrefix::NoPrefix]
    } else {
        Seq::empty()
    }) + (if s.webkit {
        seq![VendorPrefix::WebKit]
    } else {
        Seq::empty()
    }) + (if s.moz {
        seq![VendorPrefix::Moz]
    } else {
        Seq::empty()
    }) + (if s.ms {
        seq![VendorPrefix::Ms]
    } else {
        Seq::empty()
    }) + (if s.o {
        seq![VendorPrefix::O]
    } else {
        Seq::empty()
    })
}

} // verus!
