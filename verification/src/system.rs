//! The two positioning systems and the roles they play in an alignment.
use crate::text::{ascii_lower, eq_ignore_ascii_case};
use vstd::prelude::*;

verus! {

/// A positioning system.
#[derive(Clone, Copy, Debug, PartialEq, Eq, Structural)]
pub enum SystemKind {
    Loco,
    Lighthouse,
}

/// The part a system plays: the base stays fixed, the moving one is shifted.
#[derive(Clone, Copy, Debug, PartialEq, Eq, Structural)]
pub enum Role {
    Base,
    Moving,
}

impl SystemKind {
    pub open spec fn spec_label(self) -> Seq<char> {
        match self {
            SystemKind::Loco => "Loco"@,
            SystemKind::Lighthouse => "Lighthouse"@,
        }
    }

    /// The system that a label names: Lighthouse in any ASCII case, else Loco.
    pub fn from_label(s: &str) -> (r: Self)
        ensures
            r == (if ascii_lower(s@) == ascii_lower("lighthouse"@) {
                SystemKind::Lighthouse
            } else {
                SystemKind::Loco
            }),
    {
        if eq_ignore_ascii_case(s, "lighthouse") {
            SystemKind::Lighthouse
        } else {
            SystemKind::Loco
        }
    }

    /// The name shown to the user.
    pub fn label(&self) -> (r: &'static str)
        ensures
            r@ == self.spec_label(),
    {
        match self {
            SystemKind::Loco => "Loco",
            SystemKind::Lighthouse => "Lighthouse",
        }
    }

    /// The name in small letters, as it stands in file names.
    pub fn lower_label(&self) -> (r: &'static str)
        ensures
            r@ == ascii_lower(self.spec_label()),
    {
        proof {
            reveal_strlit("Loco");
            reveal_strlit("loco");
            reveal_strlit("Lighthouse");
            reveal_strlit("lighthouse");
            assert(ascii_lower("Loco"@) =~= "loco"@);
            assert(ascii_lower("Lighthouse"@) =~= "lighthouse"@);
        }
        match self {
            SystemKind::Loco => "loco",
            SystemKind::Lighthouse => "lighthouse",
        }
    }

    pub open spec fn spec_estimator_sources(self) -> (u8, u8) {
        match self {
            SystemKind::Lighthouse => (1, 0),
            SystemKind::Loco => (0, 1),
        }
    }

    /// (lighthouse.fwdToEstimator, loco.fwdToEstimator) for isolating this system in the estimator.
    pub fn estimator_sources(&self) -> (r: (u8, u8))
        ensures
            r == self.spec_estimator_sources(),
    {
        match self {
            SystemKind::Lighthouse => (1, 0),
            SystemKind::Loco => (0, 1),
        }
    }
}

impl Role {
    pub open spec fn spec_label(self) -> Seq<char> {
        match self {
            Role::Base => "Base"@,
            Role::Moving => "Moving"@,
        }
    }

    /// The name shown to the user.
    pub fn label(&self) -> (r: &'static str)
        ensures
            r@ == self.spec_label(),
    {
        match self {
            Role::Base => "Base",
            Role::Moving => "Moving",
        }
    }
}

/// Reading back the label of a system, in any ASCII case, gives that system.
pub proof fn label_names_its_system(kind: SystemKind, s: Seq<char>)
    requires
        ascii_lower(s) == ascii_lower(kind.spec_label()),
    ensures
        (ascii_lower(s) == ascii_lower("lighthouse"@)) == (kind == SystemKind::Lighthouse),
{
    reveal_strlit("Loco");
    reveal_strlit("Lighthouse");
    reveal_strlit("lighthouse");
    assert(ascii_lower("Lighthouse"@) =~= ascii_lower("lighthouse"@));
    assert(ascii_lower("Loco"@).len() != ascii_lower("lighthouse"@).len());
}

/// Isolating a system forwards that system to the estimator and no other.
pub proof fn isolation_forwards_one_system(kind: SystemKind)
    ensures
        kind.spec_estimator_sources().0 == (if kind == SystemKind::Lighthouse { 1u8 } else { 0u8 }),
        kind.spec_estimator_sources().1 == (if kind == SystemKind::Loco { 1u8 } else { 0u8 }),
        kind.spec_estimator_sources().0 + kind.spec_estimator_sources().1 == 1,
{
}

/// The label of a system, or any text that differs from it only in the case of
/// ASCII letters, is read as that system.
pub proof fn label_is_read_as_its_system(
    kind: SystemKind,
    label: &'static str,
    s: &str,
    r: SystemKind,
)
    requires
        call_ensures(SystemKind::label, (&kind,), label),
        ascii_lower(s@) == ascii_lower(label@),
        call_ensures(SystemKind::from_label, (s,), r),
    ensures
        r == kind,
{
    label_names_its_system(kind, s@);
}

/// A text that is no form of "Lighthouse" is read as Loco.
pub proof fn other_labels_are_read_as_loco(s: &str, r: SystemKind)
    requires
        ascii_lower(s@) != ascii_lower("Lighthouse"@),
        call_ensures(SystemKind::from_label, (s,), r),
    ensures
        r == SystemKind::Loco,
{
    label_names_its_system(SystemKind::Lighthouse, "Lighthouse"@);
}

/// The sources that isolate a system: one for that system, zero for the other.
pub proof fn isolating_sources_are_of_the_system(kind: SystemKind, r: (u8, u8))
    requires
        call_ensures(SystemKind::estimator_sources, (&kind,), r),
    ensures
        r.0 == (if kind is Lighthouse {
            1u8
        } else {
            0u8
        }),
        r.1 == (if kind is Loco {
            1u8
        } else {
            0u8
        }),
{
}

} // verus!
