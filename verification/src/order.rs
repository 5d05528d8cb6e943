//! Equality and order of versions: by major, minor and patch number, where a
//! number that was not given counts as zero.

use crate::version::Version;
use std::cmp::Ordering;
use vstd::prelude::*;

verus! {

impl Version {
    /// The two versions denote the same release: `1`, `1.0` and `1.0.0` do.
    pub open spec fn same(self, other: Version) -> bool {
        self.key() == other.key()
    }

    /// `self` is the earlier release: its key comes first when the keys are
    /// compared number by number.
    pub open spec fn precedes(self, other: Version) -> bool {
        let a = self.key();
        let b = other.key();
        a.0 < b.0 || (a.0 == b.0 && (a.1 < b.1 || (a.1 == b.1 && a.2 < b.2)))
    }

    /// How `self` stands to `other` in the order of releases.
    pub open spec fn ordering(self, other: Version) -> Ordering {
        if self.precedes(other) {
            Ordering::Less
        } else if other.precedes(self) {
            Ordering::Greater
        } else {
            Ordering::Equal
        }
    }

    /// Compares two versions as releases.
    pub fn cmp(&self, other: &Version) -> (o: Ordering)
        ensures
            o == self.ordering(*other),
            o == Ordering::Less <==> self.precedes(*other),
            o == Ordering::Equal <==> self.same(*other),
            o == Ordering::Greater <==> other.precedes(*self),
    {
        let a_minor = match self.minor {
            Some(n) => n,
            None => 0,
        };
        let b_minor = match other.minor {
            Some(n) => n,
            None => 0,
        };
        let a_patch = match self.patch {
            Some(n) => n,
            None => 0,
        };
        let b_patch = match other.patch {
            Some(n) => n,
            None => 0,
        };
        if self.major > other.major {
            Ordering::Greater
        } else if self.major < other.major {
            Ordering::Less
        } else if a_minor > b_minor {
            Ordering::Greater
        } else if a_minor < b_minor {
            Ordering::Less
        } else if a_patch > b_patch {
            Ordering::Greater
        } else if a_patch < b_patch {
            Ordering::Less
        } else {
            Ordering::Equal
        }
    }
}

impl PartialEq for Version {
    fn eq(&self, other: &Version) -> (r: bool) {
        match self.cmp(other) {
            Ordering::Equal => true,
            _ => false,
        }
    }
}

impl vstd::std_specs::cmp::PartialEqSpecImpl for Version {
    open spec fn obeys_eq_spec() -> bool {
        true
    }

    open spec fn eq_spec(&self, other: &Version) -> bool {
        self.same(*other)
    }
}

impl Eq for Version {}

impl PartialOrd for Version {
    fn partial_cmp(&self, other: &Version) -> (r: Option<Ordering>) {
        Some(self.cmp(other))
    }
}

impl vstd::std_specs::cmp::PartialOrdSpecImpl for Version {
    open spec fn obeys_partial_cmp_spec() -> bool {
        true
    }

    open spec fn partial_cmp_spec(&self, other: &Version) -> Option<Ordering> {
        Some(self.ordering(*other))
    }
}

/// Being the same release is an equivalence: every version is the same as
/// itself, and the relation is symmetric and transitive.
pub proof fn law_same_is_equivalence(a: Version, b: Version, c: Version)
    ensures
        a.same(a),
        a.same(b) ==> b.same(a),
        a.same(b) && b.same(c) ==> a.same(c),
{
}

/// The order is total: of two versions exactly one of three holds, that the
/// first is earlier, that they are the same release, or that the second is
/// earlier.
pub proof fn law_order_is_total(a: Version, b: Version)
    ensures
        a.precedes(b) || a.same(b) || b.precedes(a),
        !(a.precedes(b) && a.same(b)),
        !(a.precedes(b) && b.precedes(a)),
        !(a.same(b) && b.precedes(a)),
{
}

/// The order is transitive.
pub proof fn law_order_is_transitive(a: Version, b: Version, c: Version)
    requires
        a.precedes(b),
        b.precedes(c),
    ensures
        a.precedes(c),
{
}

/// Versions that are the same release stand alike to every other version.
pub proof fn law_order_respects_same(a: Version, b: Version, c: Version)
    requires
        a.same(b),
    ensures
        a.precedes(c) == b.precedes(c),
        c.precedes(a) == c.precedes(b),
        a.same(c) == b.same(c),
{
}

/// A component that was not given compares as a zero: a version, the same
/// with its absent components written as zeros, and any mix of the two are
/// the same release.
pub proof fn law_absent_is_zero(a: Version, b: Version)
    requires
        a.major == b.major,
        a.minor == b.minor || (a.minor is None && b.minor == Some(0usize)),
        a.patch == b.patch || (a.patch is None && b.patch == Some(0usize)),
    ensures
        a.same(b),
        !a.precedes(b),
        !b.precedes(a),
{
}

} // verus!
