//! Applying a computed shift to the moving system's positions file.
use crate::scalar::{exact, is_mean, is_plus, mean_is_exact, numbers, total, Scalar};
use crate::stats::{
    gaps_x, gaps_y, gaps_z, is_alignment, shift_is_the_mean_gap, AlignmentResult, PointResult,
    XyzValue,
};
use crate::system::{Role, SystemKind};
use crate::ui::{Text, UiUpdate};
use vstd::prelude::*;

verus! {

/// What the shifting of a file waits for.
#[derive(Clone, Copy, Debug, PartialEq, Eq, Structural)]
pub enum ShiftPhase {
    /// That the user picks a file.
    Picking,
    /// That the file is read.
    Reading,
    /// That its positions are shifted.
    Shifting,
    /// That the user chooses where to save.
    Choosing,
    /// That the result is written.
    Writing,
    /// Nothing more.
    Ended,
}

/// What is to be done.
#[derive(Clone, Copy, Debug, PartialEq, Eq, Structural)]
pub enum ShiftAction {
    /// Let the user pick a file, under this title.
    PickFile(Text),
    ReadFile,
    /// Shift positions in the file format of this system.
    Shift(SystemKind),
    /// Let the user choose where to save, under this title.
    ChooseTarget(Text),
    WriteFile,
    Ui(UiUpdate),
}

/// The shifting of one file of the moving system.
#[derive(Clone, Copy, Debug, PartialEq, Eq, Structural)]
pub struct FileShift {
    pub moving_kind: SystemKind,
    pub phase: ShiftPhase,
}

impl FileShift {
    /// What follows the work of the phase; `ok` tells whether it succeeded, or,
    /// of a dialog, whether the user gave a path.
    pub open spec fn step(self, ok: bool) -> (FileShift, Seq<ShiftAction>) {
        let enter = |phase: ShiftPhase| FileShift { phase, ..self };
        let fail = |text: Text| seq![ShiftAction::Ui(UiUpdate::Error(text))];
        match self.phase {
            ShiftPhase::Picking => if ok {
                (enter(ShiftPhase::Reading), seq![ShiftAction::ReadFile])
            } else {
                (enter(ShiftPhase::Ended), seq![])
            },
            ShiftPhase::Reading => if ok {
                (enter(ShiftPhase::Shifting), seq![ShiftAction::Shift(self.moving_kind)])
            } else {
                (enter(ShiftPhase::Ended), fail(Text::ReadFailed))
            },
            ShiftPhase::Shifting => if ok {
                (
                    enter(ShiftPhase::Choosing),
                    seq![ShiftAction::ChooseTarget(Text::SaveShiftedPositions(self.moving_kind))],
                )
            } else {
                (enter(ShiftPhase::Ended), fail(Text::ShiftFailed))
            },
            ShiftPhase::Choosing => if ok {
                (enter(ShiftPhase::Writing), seq![ShiftAction::WriteFile])
            } else {
                (enter(ShiftPhase::Ended), seq![])
            },
            ShiftPhase::Writing => if ok {
                (
                    enter(ShiftPhase::Ended),
                    seq![ShiftAction::Ui(UiUpdate::Status(Text::ShiftedSaved))],
                )
            } else {
                (enter(ShiftPhase::Ended), fail(Text::SaveFailed))
            },
            ShiftPhase::Ended => (self, seq![]),
        }
    }

    /// Begins the shifting of a file, and says what is to be done.
    pub fn start(moving_kind: SystemKind) -> (r: (Self, Vec<ShiftAction>))
        ensures
            r.0 == (FileShift { moving_kind, phase: ShiftPhase::Picking }),
            r.1@ == seq![ShiftAction::PickFile(Text::OpenPositions(moving_kind))],
    {
        let mut actions: Vec<ShiftAction> = Vec::new();
        actions.push(ShiftAction::PickFile(Text::OpenPositions(moving_kind)));
        (FileShift { moving_kind, phase: ShiftPhase::Picking }, actions)
    }

    /// Takes the outcome of the phase's work, and says what is to be done.
    pub fn handle(&mut self, ok: bool) -> (r: Vec<ShiftAction>)
        ensures
            (*final(self), r@) == old(self).step(ok),
    {
        let mut actions: Vec<ShiftAction> = Vec::new();
        let mut next = ShiftPhase::Ended;
        match self.phase {
            ShiftPhase::Picking => {
                if ok {
                    next = ShiftPhase::Reading;
                    actions.push(ShiftAction::ReadFile);
                }
            },
            ShiftPhase::Reading => {
                if ok {
                    next = ShiftPhase::Shifting;
                    actions.push(ShiftAction::Shift(self.moving_kind));
                } else {
                    actions.push(ShiftAction::Ui(UiUpdate::Error(Text::ReadFailed)));
                }
            },
            ShiftPhase::Shifting => {
                if ok {
                    next = ShiftPhase::Choosing;
                    actions.push(
                        ShiftAction::ChooseTarget(Text::SaveShiftedPositions(self.moving_kind)),
                    );
                } else {
                    actions.push(ShiftAction::Ui(UiUpdate::Error(Text::ShiftFailed)));
                }
            },
            ShiftPhase::Choosing => {
                if ok {
                    next = ShiftPhase::Writing;
                    actions.push(ShiftAction::WriteFile);
                }
            },
            ShiftPhase::Writing => {
                if ok {
                    actions.push(ShiftAction::Ui(UiUpdate::Status(Text::ShiftedSaved)));
                } else {
                    actions.push(ShiftAction::Ui(UiUpdate::Error(Text::SaveFailed)));
                }
            },
            ShiftPhase::Ended => {},
        }
        self.phase = next;
        actions
    }
}

pub open spec fn spec_shifted_file_name(stem: Option<Seq<char>>) -> Seq<char> {
    match stem {
        Some(stem) => stem + "_shifted.yaml"@,
        None => "positions"@ + "_shifted.yaml"@,
    }
}

/// The name proposed for the shifted file, from the stem of the file that was
/// opened, or from "positions" where that has none.
pub fn shifted_file_name(stem: Option<&str>) -> (r: String)
    ensures
        r@ == spec_shifted_file_name(
            match stem {
                Some(stem) => Some(stem@),
                None => None,
            },
        ),
{
    let mut name = match stem {
        Some(stem) => stem.to_owned(),
        None => "positions".to_owned(),
    };
    name.append("_shifted.yaml");
    name
}

/// `after` is `before` moved by `shift`, axis by axis.
pub open spec fn is_moved<T: Scalar>(
    shift: XyzValue<T>,
    before: XyzValue<T>,
    after: XyzValue<T>,
) -> bool {
    &&& is_plus(before.x, shift.x, after.x)
    &&& is_plus(before.y, shift.y, after.y)
    &&& is_plus(before.z, shift.z, after.z)
}

/// Every anchor is moved by `shift`; the anchors keep their ids and order.
pub open spec fn are_moved<T: Scalar>(
    shift: XyzValue<T>,
    before: Seq<(i64, XyzValue<T>)>,
    after: Seq<(i64, XyzValue<T>)>,
) -> bool {
    &&& after.len() == before.len()
    &&& forall|i: int|
        0 <= i < before.len() ==> (#[trigger] after[i]).0 == before[i].0 && is_moved(
            shift,
            before[i].1,
            after[i].1,
        )
}

/// Moves every Loco anchor by the shift. The anchors keep their ids and order.
pub fn shift_anchor_positions<T: Scalar>(
    anchors: &mut Vec<(i64, XyzValue<T>)>,
    shift: XyzValue<T>,
)
    ensures
        are_moved(shift, old(anchors)@, final(anchors)@),
{
    let mut i: usize = 0;
    while i < anchors.len()
        invariant
            i <= anchors@.len(),
            anchors@.len() == old(anchors)@.len(),
            forall|k: int| i <= k < anchors@.len() ==> anchors@[k] == old(anchors)@[k],
            forall|k: int|
                0 <= k < i ==> (#[trigger] anchors@[k]).0 == old(anchors)@[k].0 && is_moved(
                    shift,
                    old(anchors)@[k].1,
                    anchors@[k].1,
                ),
        decreases anchors.len() - i,
    {
        let (id, pos) = anchors[i];
        let moved = XyzValue {
            x: pos.x.plus(shift.x),
            y: pos.y.plus(shift.y),
            z: pos.z.plus(shift.z),
        };
        anchors[i] = (id, moved);
        i += 1;
    }
}

/// All that is to be done over a series of outcomes.
pub open spec fn actions_over(flow: FileShift, outcomes: Seq<bool>) -> Seq<ShiftAction>
    decreases outcomes.len(),
{
    if outcomes.len() == 0 {
        seq![]
    } else {
        let (next, actions) = flow.step(outcomes[0]);
        actions + actions_over(next, outcomes.drop_first())
    }
}

proof fn lemma_no_write_after_end(flow: FileShift, outcomes: Seq<bool>)
    requires
        flow.phase is Ended || flow.phase is Writing,
    ensures
        !actions_over(flow, outcomes).contains(ShiftAction::WriteFile),
    decreases outcomes.len(),
{
    if outcomes.len() > 0 {
        let (next, actions) = flow.step(outcomes[0]);
        lemma_no_write_after_end(next, outcomes.drop_first());
        lemma_contains_sum(actions, actions_over(next, outcomes.drop_first()));
    }
}

proof fn lemma_contains_sum(a: Seq<ShiftAction>, b: Seq<ShiftAction>)
    ensures
        (a + b).contains(ShiftAction::WriteFile) ==> a.contains(ShiftAction::WriteFile)
            || b.contains(ShiftAction::WriteFile),
{
    if (a + b).contains(ShiftAction::WriteFile) {
        let i: int = choose|i: int| 0 <= i < (a + b).len() && (a + b)[i] == ShiftAction::WriteFile;
        if i < a.len() {
            assert(a[i] == ShiftAction::WriteFile);
        } else {
            assert(b[i - a.len()] == ShiftAction::WriteFile);
        }
    }
}

/// How many outcomes a phase is away from writing.
spec fn outcomes_before_write(phase: ShiftPhase) -> int {
    match phase {
        ShiftPhase::Picking => 4,
        ShiftPhase::Reading => 3,
        ShiftPhase::Shifting => 2,
        _ => 1,
    }
}

proof fn lemma_write_needs_success(flow: FileShift, outcomes: Seq<bool>)
    requires
        !(flow.phase is Ended || flow.phase is Writing),
        actions_over(flow, outcomes).contains(ShiftAction::WriteFile),
    ensures
        outcomes.len() >= outcomes_before_write(flow.phase),
        forall|i: int| 0 <= i < outcomes_before_write(flow.phase) ==> #[trigger] outcomes[i],
    decreases outcomes.len(),
{
    if outcomes.len() > 0 {
        let (next, actions) = flow.step(outcomes[0]);
        let rest = outcomes.drop_first();
        lemma_contains_sum(actions, actions_over(next, rest));
        if next.phase is Ended || next.phase is Writing {
            lemma_no_write_after_end(next, rest);
        } else {
            lemma_write_needs_success(next, rest);
            assert forall|i: int| 0 <= i < outcomes_before_write(
                flow.phase,
            ) implies #[trigger] outcomes[i] by {
                if i > 0 {
                    assert(rest[i - 1]);
                }
            }
        }
    }
}

/// A file is written only after one was picked and read, its positions were
/// shifted and a target was chosen, each with success.
pub proof fn nothing_is_written_unless_all_succeeded(
    moving_kind: SystemKind,
    outcomes: Seq<bool>,
)
    requires
        actions_over(
            (FileShift { moving_kind, phase: ShiftPhase::Picking }),
            outcomes,
        ).contains(ShiftAction::WriteFile),
    ensures
        outcomes.len() >= 4,
        outcomes[0] && outcomes[1] && outcomes[2] && outcomes[3],
{
    lemma_write_needs_success(FileShift { moving_kind, phase: ShiftPhase::Picking }, outcomes);
}

/// The two positions stand for the same place.
pub open spec fn same_place<T>(
    value: spec_fn(T) -> real,
    a: XyzValue<T>,
    b: XyzValue<T>,
) -> bool {
    &&& value(a.x) == value(b.x)
    &&& value(a.y) == value(b.y)
    &&& value(a.z) == value(b.z)
}

/// The mean positions that the system in a role reported at the points.
pub open spec fn positions<T: Scalar>(results: Seq<PointResult<T>>, role: Role) -> Seq<
    XyzValue<T>,
> {
    results.map_values(|r: PointResult<T>| r.stats_of(role).spec_mean())
}

/// `center` is the mean of some positions, axis by axis.
pub open spec fn is_center<T: Scalar>(
    positions: Seq<XyzValue<T>>,
    center: XyzValue<T>,
) -> bool {
    &&& is_mean(positions.map_values(|p: XyzValue<T>| p.x), center.x)
    &&& is_mean(positions.map_values(|p: XyzValue<T>| p.y), center.y)
    &&& is_mean(positions.map_values(|p: XyzValue<T>| p.z), center.z)
}

proof fn lemma_total_difference(a: Seq<real>, b: Seq<real>, d: Seq<real>)
    requires
        a.len() == b.len() == d.len(),
        forall|i: int| 0 <= i < d.len() ==> #[trigger] d[i] == a[i] - b[i],
    ensures
        total(d) == total(a) - total(b),
    decreases d.len(),
{
    if d.len() > 0 {
        assert(d[d.len() - 1] == a[d.len() - 1] - b[d.len() - 1]);
        lemma_total_difference(a.drop_last(), b.drop_last(), d.drop_last());
    }
}

proof fn lemma_centers_meet(n: real, base: real, moving: real, shift: real, a: real, b: real)
    requires
        n >= 1 as real,
        n * base == a,
        n * moving == b,
        n * shift == a - b,
    ensures
        moving + shift == base,
{
    assert(moving + shift == base) by (nonlinear_arith)
        requires
            n >= 1 as real,
            n * base == a,
            n * moving == b,
            n * shift == a - b,
    ;
}

/// The shift of a report brings the moving system in line with the base: where
/// arithmetic is exact, the center of what the moving system reported, moved by
/// the shift, is the center of what the base reported.
pub proof fn shift_brings_the_centers_together<T: Scalar>(
    value: spec_fn(T) -> real,
    results: Seq<PointResult<T>>,
    base_kind: SystemKind,
    moving_kind: SystemKind,
    report: AlignmentResult<T>,
    base_center: XyzValue<T>,
    moving_center: XyzValue<T>,
    moved: XyzValue<T>,
)
    requires
        exact(value),
        results.len() > 0,
        is_alignment(results, base_kind, moving_kind, report),
        is_center(positions(results, Role::Base), base_center),
        is_center(positions(results, Role::Moving), moving_center),
        is_moved(report.shift_vector, moving_center, moved),
    ensures
        same_place(value, moved, base_center),
{
    let n = results.len() as real;
    let shift = report.shift_vector;
    let bases = positions(results, Role::Base);
    let movings = positions(results, Role::Moving);
    let bx = bases.map_values(|p: XyzValue<T>| p.x);
    let by = bases.map_values(|p: XyzValue<T>| p.y);
    let bz = bases.map_values(|p: XyzValue<T>| p.z);
    let mx = movings.map_values(|p: XyzValue<T>| p.x);
    let my = movings.map_values(|p: XyzValue<T>| p.y);
    let mz = movings.map_values(|p: XyzValue<T>| p.z);
    shift_is_the_mean_gap(value, results, base_kind, moving_kind, report);
    mean_is_exact(value, bx, base_center.x);
    mean_is_exact(value, by, base_center.y);
    mean_is_exact(value, bz, base_center.z);
    mean_is_exact(value, mx, moving_center.x);
    mean_is_exact(value, my, moving_center.y);
    mean_is_exact(value, mz, moving_center.z);
    lemma_total_difference(numbers(value, bx), numbers(value, mx), gaps_x(value, results));
    lemma_total_difference(numbers(value, by), numbers(value, my), gaps_y(value, results));
    lemma_total_difference(numbers(value, bz), numbers(value, mz), gaps_z(value, results));
    lemma_centers_meet(
        n,
        value(base_center.x),
        value(moving_center.x),
        value(shift.x),
        total(numbers(value, bx)),
        total(numbers(value, mx)),
    );
    lemma_centers_meet(
        n,
        value(base_center.y),
        value(moving_center.y),
        value(shift.y),
        total(numbers(value, by)),
        total(numbers(value, my)),
    );
    lemma_centers_meet(
        n,
        value(base_center.z),
        value(moving_center.z),
        value(shift.z),
        total(numbers(value, bz)),
        total(numbers(value, mz)),
    );
}

/// All numbers are the first one.
pub open spec fn all_equal(numbers: Seq<real>) -> bool {
    forall|i: int| 0 <= i < numbers.len() ==> #[trigger] numbers[i] == numbers[0]
}

proof fn lemma_total_of_equal(numbers: Seq<real>, a: real)
    requires
        forall|i: int| 0 <= i < numbers.len() ==> #[trigger] numbers[i] == a,
    ensures
        total(numbers) == numbers.len() as real * a,
    decreases numbers.len(),
{
    if numbers.len() > 0 {
        let front = numbers.drop_last();
        assert(numbers[numbers.len() - 1] == a);
        lemma_total_of_equal(front, a);
        let k = front.len() as real;
        assert(numbers.len() as real == k + 1 as real);
        assert((k + 1 as real) * a == k * a + a) by (nonlinear_arith);
    } else {
        assert(0 as real * a == 0 as real) by (nonlinear_arith);
    }
}

proof fn lemma_mean_of_equal(numbers: Seq<real>, m: real, i: int)
    requires
        all_equal(numbers),
        0 <= i < numbers.len(),
        numbers.len() as real * m == total(numbers),
    ensures
        m == numbers[i],
{
    let n = numbers.len() as real;
    let a = numbers[0];
    lemma_total_of_equal(numbers, a);
    assert(n >= 1 as real);
    assert(m == a) by (nonlinear_arith)
        requires
            n >= 1 as real,
            n * m == n * a,
    ;
}

/// Where the two systems differ by one translation, and arithmetic is exact, the
/// shift of a report is that translation: moving what the moving system reported
/// at any point by the shift gives what the base reported there.
pub proof fn shift_brings_the_systems_in_line<T: Scalar>(
    value: spec_fn(T) -> real,
    results: Seq<PointResult<T>>,
    base_kind: SystemKind,
    moving_kind: SystemKind,
    report: AlignmentResult<T>,
    i: int,
    moved: XyzValue<T>,
)
    requires
        exact(value),
        is_alignment(results, base_kind, moving_kind, report),
        all_equal(gaps_x(value, results)),
        all_equal(gaps_y(value, results)),
        all_equal(gaps_z(value, results)),
        0 <= i < results.len(),
        is_moved(report.shift_vector, results[i].moving.spec_mean(), moved),
    ensures
        same_place(value, moved, results[i].base.spec_mean()),
{
    let shift = report.shift_vector;
    shift_is_the_mean_gap(value, results, base_kind, moving_kind, report);
    lemma_mean_of_equal(gaps_x(value, results), value(shift.x), i);
    lemma_mean_of_equal(gaps_y(value, results), value(shift.y), i);
    lemma_mean_of_equal(gaps_z(value, results), value(shift.z), i);
}

/// The sum of `a` and `b` is exact, axis by axis.
pub open spec fn moves_exactly<T: Scalar>(
    value: spec_fn(T) -> real,
    a: XyzValue<T>,
    b: XyzValue<T>,
) -> bool {
    &&& forall|r: T| #[trigger] is_plus(a.x, b.x, r) ==> value(r) == value(a.x) + value(b.x)
    &&& forall|r: T| #[trigger] is_plus(a.y, b.y, r) ==> value(r) == value(a.y) + value(b.y)
    &&& forall|r: T| #[trigger] is_plus(a.z, b.z, r) ==> value(r) == value(a.z) + value(b.z)
}

/// `b` is the translation opposite to `a`.
pub open spec fn are_opposite<T>(
    value: spec_fn(T) -> real,
    a: XyzValue<T>,
    b: XyzValue<T>,
) -> bool {
    &&& value(a.x) + value(b.x) == 0 as real
    &&& value(a.y) + value(b.y) == 0 as real
    &&& value(a.z) + value(b.z) == 0 as real
}

/// Moving anchors by a shift and then by its opposite gives them back, ids and
/// order among it, where the sums that are made are exact.
pub proof fn opposite_shift_gives_the_anchors_back<T: Scalar>(
    value: spec_fn(T) -> real,
    shift: XyzValue<T>,
    opposite: XyzValue<T>,
    before: Seq<(i64, XyzValue<T>)>,
    after: Seq<(i64, XyzValue<T>)>,
    back: Seq<(i64, XyzValue<T>)>,
    i: int,
)
    requires
        are_opposite(value, shift, opposite),
        are_moved(shift, before, after),
        are_moved(opposite, after, back),
        0 <= i < before.len(),
        moves_exactly(value, before[i].1, shift),
        moves_exactly(value, after[i].1, opposite),
    ensures
        back.len() == before.len(),
        back[i].0 == before[i].0,
        same_place(value, back[i].1, before[i].1),
{
    assert(after[i].0 == before[i].0);
    assert(back[i].0 == after[i].0);
}

/// Moving anchors by no shift leaves them, where the sums that are made are
/// exact.
pub proof fn no_shift_leaves_the_anchors<T: Scalar>(
    value: spec_fn(T) -> real,
    shift: XyzValue<T>,
    before: Seq<(i64, XyzValue<T>)>,
    after: Seq<(i64, XyzValue<T>)>,
    i: int,
)
    requires
        value(shift.x) == 0 as real,
        value(shift.y) == 0 as real,
        value(shift.z) == 0 as real,
        are_moved(shift, before, after),
        0 <= i < before.len(),
        moves_exactly(value, before[i].1, shift),
    ensures
        after.len() == before.len(),
        after[i].0 == before[i].0,
        same_place(value, after[i].1, before[i].1),
{
    assert(after[i].0 == before[i].0);
}

/// Whatever the outcome, a file shift keeps its system, and every shift that it
/// asks for is in the format of that system; the dialogs name that system.
pub proof fn file_is_shifted_in_the_format_of_its_system(
    flow: &mut FileShift,
    ok: bool,
    r: Vec<ShiftAction>,
    i: int,
)
    requires
        call_ensures(FileShift::handle, (flow, ok), r),
        0 <= i < r@.len(),
    ensures
        final(flow).moving_kind == old(flow).moving_kind,
        is_for(old(flow).moving_kind, r@[i]),
{
}

/// An action is for a system: a shift is in its format, and a dialog names it.
pub open spec fn is_for(kind: SystemKind, action: ShiftAction) -> bool {
    match action {
        ShiftAction::Shift(k) => k == kind,
        ShiftAction::PickFile(title) => title == Text::OpenPositions(kind),
        ShiftAction::ChooseTarget(title) => title == Text::SaveShiftedPositions(kind),
        _ => true,
    }
}

/// Over any series of outcomes of a file shift begun for a system, every shift is
/// in the format of that system, and every dialog names it.
pub proof fn every_shift_is_for_the_system(
    kind: SystemKind,
    begun: (FileShift, Vec<ShiftAction>),
    outcomes: Seq<bool>,
    i: int,
)
    requires
        call_ensures(FileShift::start, (kind,), begun),
        0 <= i < (begun.1@ + actions_over(begun.0, outcomes)).len(),
    ensures
        (begun.1@ + actions_over(begun.0, outcomes))[i] matches ShiftAction::Shift(k) ==> k == kind,
        is_for(kind, (begun.1@ + actions_over(begun.0, outcomes))[i]),
{
    if i >= begun.1@.len() {
        lemma_over_is_for(begun.0, outcomes, i - begun.1@.len());
    }
}

proof fn lemma_over_is_for(flow: FileShift, outcomes: Seq<bool>, i: int)
    requires
        0 <= i < actions_over(flow, outcomes).len(),
    ensures
        is_for(flow.moving_kind, actions_over(flow, outcomes)[i]),
    decreases outcomes.len(),
{
    if outcomes.len() > 0 {
        let (next, actions) = flow.step(outcomes[0]);
        if i >= actions.len() {
            assert(next.moving_kind == flow.moving_kind);
            lemma_over_is_for(next, outcomes.drop_first(), i - actions.len());
        }
    }
}

/// With every outcome successful a file is picked, read, shifted once in the
/// format of the system, given a target and written, in this order, and the
/// success is shown.
pub proof fn undisturbed_file_shift_does_every_step(
    kind: SystemKind,
    begun: (FileShift, Vec<ShiftAction>),
)
    requires
        call_ensures(FileShift::start, (kind,), begun),
    ensures
        begun.1@ + actions_over(begun.0, seq![true, true, true, true, true]) == seq![
            ShiftAction::PickFile(Text::OpenPositions(kind)),
            ShiftAction::ReadFile,
            ShiftAction::Shift(kind),
            ShiftAction::ChooseTarget(Text::SaveShiftedPositions(kind)),
            ShiftAction::WriteFile,
            ShiftAction::Ui(UiUpdate::Status(Text::ShiftedSaved)),
        ],
{
    lemma_successes(begun.0, 5);
    assert(Seq::new(5, |i: int| true) =~= seq![true, true, true, true, true]);
}

/// The actions that follow `n` successes in a row from the beginning.
proof fn lemma_successes(first: FileShift, n: nat)
    requires
        first.phase is Picking,
        n == 5,
    ensures
        actions_over(first, Seq::new(n, |i: int| true)) == seq![
            ShiftAction::ReadFile,
            ShiftAction::Shift(first.moving_kind),
            ShiftAction::ChooseTarget(Text::SaveShiftedPositions(first.moving_kind)),
            ShiftAction::WriteFile,
            ShiftAction::Ui(UiUpdate::Status(Text::ShiftedSaved)),
        ],
{
    let o5 = Seq::new(n, |i: int| true);
    let o4 = o5.drop_first();
    let o3 = o4.drop_first();
    let o2 = o3.drop_first();
    let o1 = o2.drop_first();
    let o0 = o1.drop_first();
    let s1 = first.step(true).0;
    let s2 = s1.step(true).0;
    let s3 = s2.step(true).0;
    let s4 = s3.step(true).0;
    let s5 = s4.step(true).0;
    assert(o5[0] && o4[0] && o3[0] && o2[0] && o1[0]);
    assert(actions_over(s5, o0) =~= seq![]);
    assert(actions_over(s4, o1) =~= s4.step(true).1);
    assert(actions_over(s3, o2) =~= s3.step(true).1 + s4.step(true).1);
    assert(actions_over(s2, o3) =~= s2.step(true).1 + s3.step(true).1 + s4.step(true).1);
    assert(actions_over(s1, o4) =~= s1.step(true).1 + s2.step(true).1 + s3.step(true).1 + s4.step(
        true,
    ).1);
    assert(actions_over(first, o5) =~= first.step(true).1 + s1.step(true).1 + s2.step(true).1
        + s3.step(true).1 + s4.step(true).1);
}

/// A file that cannot be read, shifted or written is reported as that, and a
/// dialog that is left without a path ends the file shift without a word; either
/// way nothing more is done.
pub proof fn failure_ends_the_file_shift(
    flow: &mut FileShift,
    r: Vec<ShiftAction>,
    later: Seq<bool>,
)
    requires
        call_ensures(FileShift::handle, (flow, false), r),
    ensures
        r@ == (match old(flow).phase {
            ShiftPhase::Reading => seq![ShiftAction::Ui(UiUpdate::Error(Text::ReadFailed))],
            ShiftPhase::Shifting => seq![ShiftAction::Ui(UiUpdate::Error(Text::ShiftFailed))],
            ShiftPhase::Writing => seq![ShiftAction::Ui(UiUpdate::Error(Text::SaveFailed))],
            _ => seq![],
        }),
        actions_over(*final(flow), later) == Seq::<ShiftAction>::empty(),
{
    lemma_nothing_after_the_end(*final(flow), later);
}

proof fn lemma_nothing_after_the_end(flow: FileShift, outcomes: Seq<bool>)
    requires
        flow.phase is Ended,
    ensures
        actions_over(flow, outcomes) == Seq::<ShiftAction>::empty(),
    decreases outcomes.len(),
{
    if outcomes.len() > 0 {
        lemma_nothing_after_the_end(flow, outcomes.drop_first());
    }
}

/// The proposed name is the stem of the opened file with an ending, so that files
/// with different stems get different names; without a stem it is that of a file
/// called "positions".
pub proof fn shifted_name_keeps_the_stem(
    stem: &str,
    r: String,
    none: String,
    named: &str,
    some: String,
)
    requires
        call_ensures(shifted_file_name, (Some(stem),), r),
        call_ensures(shifted_file_name, (None::<&str>,), none),
        named@ == "positions"@,
        call_ensures(shifted_file_name, (Some(named),), some),
    ensures
        r@ == stem@ + "_shifted.yaml"@,
        none@ == some@,
{
}

/// Where the sums are exact, every anchor moves by the shift along each axis, and
/// keeps its id and its place in the list.
pub proof fn anchors_move_along_each_axis<T: Scalar>(
    value: spec_fn(T) -> real,
    anchors: &mut Vec<(i64, XyzValue<T>)>,
    shift: XyzValue<T>,
    i: int,
)
    requires
        call_ensures(shift_anchor_positions::<T>, (anchors, shift), ()),
        0 <= i < old(anchors)@.len(),
        moves_exactly(value, old(anchors)@[i].1, shift),
    ensures
        final(anchors)@.len() == old(anchors)@.len(),
        final(anchors)@[i].0 == old(anchors)@[i].0,
        value(final(anchors)@[i].1.x) == value(old(anchors)@[i].1.x) + value(shift.x),
        value(final(anchors)@[i].1.y) == value(old(anchors)@[i].1.y) + value(shift.y),
        value(final(anchors)@[i].1.z) == value(old(anchors)@[i].1.z) + value(shift.z),
{
    assert(final(anchors)@[i].0 == old(anchors)@[i].0);
}

} // verus!
