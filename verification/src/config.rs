//! What the user sets before connecting and before an alignment.
use crate::system::{label_names_its_system, SystemKind};
use crate::text::{
    ascii_lower, decimal, decimal_spells_number, parse_u64, parse_usize, spelled_number,
};
use vstd::prelude::*;

verus! {

/// The settings of an alignment run.
#[derive(Clone, Copy, Debug, PartialEq, Eq, Structural)]
pub struct MeasurementConfig {
    pub base_kind: SystemKind,
    pub moving_kind: SystemKind,
    pub num_points: usize,
    pub num_samples: usize,
}

/// The number that a text field holds: what it spells if that is at most `max`,
/// else `default`; never less than `least`.
pub open spec fn setting(text: Seq<char>, max: nat, default: nat, least: nat) -> nat {
    let value = match spelled_number(text) {
        Some(v) => if v <= max {
            v
        } else {
            default
        },
        None => default,
    };
    if value < least {
        least
    } else {
        value
    }
}

fn usize_setting(text: &str, default: usize, least: usize) -> (r: usize)
    ensures
        r == setting(text@, usize::MAX as nat, default as nat, least as nat),
{
    let value: usize = match parse_usize(text) {
        Some(v) => v,
        None => default,
    };
    if value < least {
        least
    } else {
        value
    }
}

/// The log period in milliseconds: 100 unless the text says otherwise, at least 10.
pub fn log_period_setting(text: &str) -> (r: u64)
    ensures
        r == setting(text@, u64::MAX as nat, 100, 10),
{
    let value: u64 = match parse_u64(text) {
        Some(v) => v,
        None => 100,
    };
    if value < 10 {
        10
    } else {
        value
    }
}

impl MeasurementConfig {
    /// The configuration that the text fields describe. The number of points is
    /// 4 and that of samples 100 unless the text says otherwise; either is at
    /// least 1.
    pub fn from_fields(
        base_system: &str,
        moving_system: &str,
        num_points: &str,
        num_samples: &str,
    ) -> (r: Self)
        ensures
            (r.base_kind == SystemKind::Lighthouse) == (ascii_lower(base_system@) == ascii_lower(
                "lighthouse"@,
            )),
            (r.moving_kind == SystemKind::Lighthouse) == (ascii_lower(moving_system@)
                == ascii_lower("lighthouse"@)),
            r.num_points == setting(num_points@, usize::MAX as nat, 4, 1),
            r.num_samples == setting(num_samples@, usize::MAX as nat, 100, 1),
    {
        MeasurementConfig {
            base_kind: SystemKind::from_label(base_system),
            moving_kind: SystemKind::from_label(moving_system),
            num_points: usize_setting(num_points, 4, 1),
            num_samples: usize_setting(num_samples, 100, 1),
        }
    }
}

/// A field that holds a number in decimal digits sets that number, but never less
/// than the least.
pub proof fn numbers_in_fields_are_taken(
    base_system: &str,
    moving_system: &str,
    num_points: &str,
    num_samples: &str,
    r: MeasurementConfig,
    points: nat,
    samples: nat,
)
    requires
        call_ensures(
            MeasurementConfig::from_fields,
            (base_system, moving_system, num_points, num_samples),
            r,
        ),
    ensures
        num_points@ == decimal(points) && 1 <= points <= usize::MAX ==> r.num_points == points,
        num_samples@ == decimal(samples) && 1 <= samples <= usize::MAX ==> r.num_samples
            == samples,
        num_points@ == decimal(0) ==> r.num_points == 1,
        num_samples@ == decimal(0) ==> r.num_samples == 1,
        spelled_number(num_points@) is None ==> r.num_points == 4,
        spelled_number(num_samples@) is None ==> r.num_samples == 100,
        num_points@ == decimal(points) && points > usize::MAX ==> r.num_points == 4,
        num_samples@ == decimal(samples) && samples > usize::MAX ==> r.num_samples == 100,
{
    decimal_spells_number(points);
    decimal_spells_number(samples);
    decimal_spells_number(0);
}

/// Each system is the one that its own field names, in any ASCII case.
pub proof fn systems_are_those_of_their_fields(
    base_system: &str,
    moving_system: &str,
    num_points: &str,
    num_samples: &str,
    r: MeasurementConfig,
    base: SystemKind,
    moving: SystemKind,
)
    requires
        call_ensures(
            MeasurementConfig::from_fields,
            (base_system, moving_system, num_points, num_samples),
            r,
        ),
        call_ensures(SystemKind::from_label, (base_system,), base),
        call_ensures(SystemKind::from_label, (moving_system,), moving),
    ensures
        r.base_kind == base,
        r.moving_kind == moving,
        ascii_lower(base_system@) == ascii_lower("Lighthouse"@) ==> r.base_kind
            == SystemKind::Lighthouse,
        ascii_lower(base_system@) == ascii_lower("Loco"@) ==> r.base_kind == SystemKind::Loco,
        ascii_lower(moving_system@) == ascii_lower("Lighthouse"@) ==> r.moving_kind
            == SystemKind::Lighthouse,
        ascii_lower(moving_system@) == ascii_lower("Loco"@) ==> r.moving_kind == SystemKind::Loco,
{
    label_names_its_system(SystemKind::Lighthouse, "Lighthouse"@);
    label_names_its_system(SystemKind::Loco, "Loco"@);
}

/// A log period in decimal digits is taken, but never one below ten milliseconds;
/// what is no number, or too large, counts as a hundred.
pub proof fn log_period_in_a_field_is_taken(text: &str, r: u64, millis: nat)
    requires
        call_ensures(log_period_setting, (text,), r),
    ensures
        r >= 10,
        text@ == decimal(millis) && 10 <= millis <= u64::MAX ==> r == millis,
        text@ == decimal(millis) && millis < 10 ==> r == 10,
        text@ == decimal(millis) && millis > u64::MAX ==> r == 100,
        spelled_number(text@) is None ==> r == 100,
{
    decimal_spells_number(millis);
}

} // verus!
