//! The on-screen instruction shown before a capture step.
use crate::system::SystemKind;
use crate::text::{decimal, push_decimal};
use vstd::prelude::*;

verus! {

/// How an instruction begins: where to place the Crazyflie on the first step;
/// that it stays where it is where two Lighthouse systems are swapped.
pub open spec fn instruction_lead(
    kind: SystemKind,
    other_kind: SystemKind,
    point_n: nat,
    total: nat,
    is_first_step: bool,
) -> Seq<char> {
    if is_first_step {
        "Place the Crazyflie at location "@ + decimal(point_n) + "/"@ + decimal(total) + ". "@
    } else if other_kind == SystemKind::Lighthouse && kind == SystemKind::Lighthouse {
        "Without moving the Crazyflie, "@
    } else {
        seq![]
    }
}

/// What an instruction asks for.
pub open spec fn instruction_request(
    role: Seq<char>,
    kind: SystemKind,
    other_kind: SystemKind,
) -> Seq<char> {
    match kind {
        SystemKind::Lighthouse => if other_kind == SystemKind::Lighthouse {
            "block the OTHER lighthouse system's base stations so only the "@ + role
                + " system's base stations are visible, then click 'Capture "@ + role + "'."@
        } else {
            "Ready to capture the "@ + role + " system (Lighthouse position). Click 'Capture "@
                + role + "'."@
        },
        SystemKind::Loco => "Ready to capture the "@ + role
            + " system (Loco position). Click 'Capture "@ + role + "'."@,
    }
}

pub open spec fn spec_capture_instruction(
    role: Seq<char>,
    kind: SystemKind,
    other_kind: SystemKind,
    point_n: nat,
    total: nat,
    is_first_step: bool,
) -> Seq<char> {
    instruction_lead(kind, other_kind, point_n, total, is_first_step) + instruction_request(
        role,
        kind,
        other_kind,
    )
}

/// Builds the on-screen instruction shown before a capture step.
///
/// `is_first_step` controls whether the user is told to (re)place the Crazyflie.
/// When both the base and moving systems are Lighthouse, the second step instead
/// tells the user to swap which system's base stations are physically visible
/// without moving the Crazyflie.
pub fn capture_instruction(
    role: &str,
    kind: SystemKind,
    other_kind: SystemKind,
    point_n: usize,
    total: usize,
    is_first_step: bool,
) -> (r: String)
    ensures
        r@ == spec_capture_instruction(
            role@,
            kind,
            other_kind,
            point_n as nat,
            total as nat,
            is_first_step,
        ),
{
    let mut s = String::new();
    if is_first_step {
        s.append("Place the Crazyflie at location ");
        push_decimal(&mut s, point_n);
        s.append("/");
        push_decimal(&mut s, total);
        s.append(". ");
    } else if other_kind == SystemKind::Lighthouse && kind == SystemKind::Lighthouse {
        s.append("Without moving the Crazyflie, ");
    }
    let ghost lead = s@;
    assert(lead =~= instruction_lead(
        kind,
        other_kind,
        point_n as nat,
        total as nat,
        is_first_step,
    ));
    match kind {
        SystemKind::Lighthouse => {
            if other_kind == SystemKind::Lighthouse {
                s.append("block the OTHER lighthouse system's base stations so only the ");
                s.append(role);
                s.append(" system's base stations are visible, then click 'Capture ");
            } else {
                s.append("Ready to capture the ");
                s.append(role);
                s.append(" system (Lighthouse position). Click 'Capture ");
            }
        },
        SystemKind::Loco => {
            s.append("Ready to capture the ");
            s.append(role);
            s.append(" system (Loco position). Click 'Capture ");
        },
    }
    s.append(role);
    s.append("'.");
    assert(s@ =~= lead + instruction_request(role@, kind, other_kind));
    s
}

/// The user is told to place the Crazyflie on the first step and on no other.
pub proof fn placing_is_asked_on_first_step_only(
    role: Seq<char>,
    kind: SystemKind,
    other_kind: SystemKind,
    point_n: nat,
    total: nat,
    is_first_step: bool,
)
    ensures
        is_first_step == "Place the Crazyflie at location "@.is_prefix_of(
            spec_capture_instruction(role, kind, other_kind, point_n, total, is_first_step),
        ),
{
    let place = "Place the Crazyflie at location "@;
    let text = spec_capture_instruction(role, kind, other_kind, point_n, total, is_first_step);
    reveal_strlit("Place the Crazyflie at location ");
    reveal_strlit("Without moving the Crazyflie, ");
    reveal_strlit("Ready to capture the ");
    reveal_strlit("block the OTHER lighthouse system's base stations so only the ");
    if is_first_step {
        assert(place =~= text.subrange(0, place.len() as int));
    } else {
        assert(text[0] != 'P');
        if place.is_prefix_of(text) {
            assert(place[0] == text.subrange(0, place.len() as int)[0]);
        }
    }
}

/// With two Lighthouse systems the second step asks to leave the Crazyflie where
/// it is and to block the other system's base stations.
pub proof fn swapping_lighthouses_keeps_the_place(role: Seq<char>, point_n: nat, total: nat)
    ensures
        spec_capture_instruction(
            role,
            SystemKind::Lighthouse,
            SystemKind::Lighthouse,
            point_n,
            total,
            false,
        ) == "Without moving the Crazyflie, "@
            + ("block the OTHER lighthouse system's base stations so only the "@ + role
            + " system's base stations are visible, then click 'Capture "@ + role + "'."@),
{
}

/// On the first step an instruction begins with the place, the point's number and
/// the number of points, in this order.
pub proof fn first_step_tells_the_place(
    role: &str,
    kind: SystemKind,
    other_kind: SystemKind,
    point_n: usize,
    total: usize,
    r: String,
)
    requires
        call_ensures(capture_instruction, (role, kind, other_kind, point_n, total, true), r),
    ensures
        ("Place the Crazyflie at location "@ + decimal(point_n as nat) + "/"@ + decimal(
            total as nat,
        ) + ". "@).is_prefix_of(r@),
{
    let lead = "Place the Crazyflie at location "@ + decimal(point_n as nat) + "/"@ + decimal(
        total as nat,
    ) + ". "@;
    assert(lead =~= r@.subrange(0, lead.len() as int));
}

/// Unless both systems are Lighthouse, an instruction ends by naming the role and
/// the system that is captured, and the button for that role.
pub proof fn instruction_names_the_system_and_the_button(
    role: &str,
    kind: SystemKind,
    other_kind: SystemKind,
    point_n: usize,
    total: usize,
    is_first_step: bool,
    r: String,
    label: &'static str,
)
    requires
        call_ensures(
            capture_instruction,
            (role, kind, other_kind, point_n, total, is_first_step),
            r,
        ),
        call_ensures(SystemKind::label, (&kind,), label),
        kind is Loco || other_kind is Loco,
    ensures
        ("Ready to capture the "@ + role@ + " system ("@ + label@ + " position). Click 'Capture "@
            + role@ + "'."@).is_suffix_of(r@),
        !is_first_step ==> r@ == "Ready to capture the "@ + role@ + " system ("@ + label@
            + " position). Click 'Capture "@ + role@ + "'."@,
        is_first_step ==> r@ == "Place the Crazyflie at location "@ + decimal(point_n as nat)
            + "/"@ + decimal(total as nat) + ". "@ + ("Ready to capture the "@ + role@
            + " system ("@ + label@ + " position). Click 'Capture "@ + role@ + "'."@),
{
    reveal_strlit(" system (Lighthouse position). Click 'Capture ");
    reveal_strlit(" system (Loco position). Click 'Capture ");
    reveal_strlit(" system (");
    reveal_strlit(" position). Click 'Capture ");
    reveal_strlit("Lighthouse");
    reveal_strlit("Loco");
    assert(" system ("@ + "Lighthouse"@ + " position). Click 'Capture "@
        =~= " system (Lighthouse position). Click 'Capture "@);
    assert(" system ("@ + "Loco"@ + " position). Click 'Capture "@
        =~= " system (Loco position). Click 'Capture "@);
    let request = "Ready to capture the "@ + role@ + " system ("@ + label@
        + " position). Click 'Capture "@ + role@ + "'."@;
    let spelled = instruction_request(role@, kind, other_kind);
    let middle = match kind {
        SystemKind::Lighthouse => " system (Lighthouse position). Click 'Capture "@,
        SystemKind::Loco => " system (Loco position). Click 'Capture "@,
    };
    assert(" system ("@ + label@ + " position). Click 'Capture "@ == middle);
    assert(request =~= "Ready to capture the "@ + role@ + (" system ("@ + label@
        + " position). Click 'Capture "@) + role@ + "'."@);
    assert(request =~= spelled);
    let lead = instruction_lead(kind, other_kind, point_n as nat, total as nat, is_first_step);
    assert(r@ == lead + spelled);
    assert(spelled =~= r@.subrange(r@.len() - spelled.len(), r@.len() as int));
    if !is_first_step {
        assert(r@ =~= spelled);
    }
}

/// With two Lighthouse systems an instruction ends by asking to leave only the
/// role's base stations visible, and names the button for that role; on the
/// second step it begins by asking to leave the Crazyflie where it is.
pub proof fn two_lighthouses_are_told_apart_by_blocking(
    role: &str,
    point_n: usize,
    total: usize,
    is_first_step: bool,
    r: String,
)
    requires
        call_ensures(
            capture_instruction,
            (
                role,
                SystemKind::Lighthouse,
                SystemKind::Lighthouse,
                point_n,
                total,
                is_first_step,
            ),
            r,
        ),
    ensures
        ("block the OTHER lighthouse system's base stations so only the "@ + role@
            + " system's base stations are visible, then click 'Capture "@ + role@
            + "'."@).is_suffix_of(r@),
        !is_first_step ==> "Without moving the Crazyflie, "@.is_prefix_of(r@),
        r@ == (if is_first_step {
            "Place the Crazyflie at location "@ + decimal(point_n as nat) + "/"@ + decimal(
                total as nat,
            ) + ". "@
        } else {
            "Without moving the Crazyflie, "@
        }) + ("block the OTHER lighthouse system's base stations so only the "@ + role@
            + " system's base stations are visible, then click 'Capture "@ + role@ + "'."@),
{
    let request = "block the OTHER lighthouse system's base stations so only the "@ + role@
        + " system's base stations are visible, then click 'Capture "@ + role@ + "'."@;
    assert(request =~= r@.subrange(r@.len() - request.len(), r@.len() as int));
    if !is_first_step {
        let lead = "Without moving the Crazyflie, "@;
        assert(lead =~= r@.subrange(0, lead.len() as int));
    }
}

} // verus!
