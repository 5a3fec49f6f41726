//! The priority of an inner package, which fixes the order of work within a package.

use std::cmp::Ordering;
use vstd::prelude::*;
use vstd::std_specs::cmp::PartialOrdSpecImpl;
use vstd::string::*;

verus! {

/// How early an inner package is handled: `Highest` first, `Lowest` last.
#[derive(Clone, Copy, Debug, PartialEq, Eq, Structural, Ord, Hash)]
pub enum InnerPackagePriority {
    Lowest,
    Lower,
    Normal,
    Higher,
    Highest,
}

impl InnerPackagePriority {
    /// The place of the priority in the order `Lowest < Lower < Normal < Higher < Highest`.
    pub open spec fn rank_spec(self) -> int {
        match self {
            InnerPackagePriority::Lowest => 0,
            InnerPackagePriority::Lower => 1,
            InnerPackagePriority::Normal => 2,
            InnerPackagePriority::Higher => 3,
            InnerPackagePriority::Highest => 4,
        }
    }

    /// The word that stands for the priority in lower case.
    pub open spec fn label(self) -> Seq<char> {
        match self {
            InnerPackagePriority::Highest => "highest"@,
            InnerPackagePriority::Higher => "higher"@,
            InnerPackagePriority::Normal => "normal"@,
            InnerPackagePriority::Lower => "lower"@,
            InnerPackagePriority::Lowest => "lowest"@,
        }
    }

    /// The name of the variant, as it is written in the source.
    pub open spec fn variant_name(self) -> Seq<char> {
        match self {
            InnerPackagePriority::Highest => "Highest"@,
            InnerPackagePriority::Higher => "Higher"@,
            InnerPackagePriority::Normal => "Normal"@,
            InnerPackagePriority::Lower => "Lower"@,
            InnerPackagePriority::Lowest => "Lowest"@,
        }
    }

    /// The place of the priority in the order, from 0 for `Lowest` to 4 for `Highest`.
    pub fn rank(&self) -> (r: u8)
        ensures
            r == self.rank_spec(),
    {
        match self {
            InnerPackagePriority::Lowest => 0,
            InnerPackagePriority::Lower => 1,
            InnerPackagePriority::Normal => 2,
            InnerPackagePriority::Higher => 3,
            InnerPackagePriority::Highest => 4,
        }
    }

    /// The priority in words, in lower case.
    pub fn to_string(&self) -> (r: String)
        ensures
            r@ == self.label(),
    {
        match self {
            InnerPackagePriority::Highest => String::from_str("highest"),
            InnerPackagePriority::Higher => String::from_str("higher"),
            InnerPackagePriority::Normal => String::from_str("normal"),
            InnerPackagePriority::Lower => String::from_str("lower"),
            InnerPackagePriority::Lowest => String::from_str("lowest"),
        }
    }

    /// The name of the variant.
    pub fn debug_name(&self) -> (r: &'static str)
        ensures
            r@ == self.variant_name(),
    {
        match self {
            InnerPackagePriority::Highest => "Highest",
            InnerPackagePriority::Higher => "Higher",
            InnerPackagePriority::Normal => "Normal",
            InnerPackagePriority::Lower => "Lower",
            InnerPackagePriority::Lowest => "Lowest",
        }
    }
}

impl Default for InnerPackagePriority {
    fn default() -> (r: Self)
        ensures
            r == InnerPackagePriority::Normal,
    {
        InnerPackagePriority::Normal
    }
}

impl PartialOrd for InnerPackagePriority {
    fn partial_cmp(&self, other: &InnerPackagePriority) -> (r: Option<Ordering>) {
        let a: u8 = self.rank();
        let b: u8 = other.rank();
        if a < b {
            Some(Ordering::Less)
        } else if a == b {
            Some(Ordering::Equal)
        } else {
            Some(Ordering::Greater)
        }
    }
}

impl PartialOrdSpecImpl for InnerPackagePriority {
    open spec fn obeys_partial_cmp_spec() -> bool {
        true
    }

    open spec fn partial_cmp_spec(&self, other: &InnerPackagePriority) -> Option<Ordering> {
        if self.rank_spec() < other.rank_spec() {
            Some(Ordering::Less)
        } else if self.rank_spec() == other.rank_spec() {
            Some(Ordering::Equal)
        } else {
            Some(Ordering::Greater)
        }
    }
}

} // verus!
