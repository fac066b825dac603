//! Capturing the position that one system reports.
use crate::collect::{collecting, Collecting, SampleEvent, Turn};
use crate::config::MeasurementConfig;
use crate::estimator::{
    reset_estimator, set_estimator_sources, spec_reset_estimator, spec_set_estimator_sources,
    Operation, ParamWrite,
};
use crate::system::{Role, SystemKind};
use crate::ui::{Text, UiUpdate};
use vstd::prelude::*;

verus! {

/// A step of a capture.
#[derive(Clone, Copy, Debug, PartialEq, Eq, Structural)]
pub enum CaptureStep {
    Ui(UiUpdate),
    /// Write a parameter; whether that succeeded is handed back.
    Write(ParamWrite),
    /// Wait for the settle time.
    Settle,
    /// Throw away the samples that came before or during the settle time.
    DrainStale,
    /// Collect this many samples; whether that succeeded is handed back.
    Collect(usize),
}

/// What a receiver without waiting gives back.
#[derive(Clone, Copy, Debug, PartialEq, Eq, Structural)]
pub enum Drained {
    Sample,
    Lagged,
    Empty,
    Closed,
}

/// Draining takes what is pending, samples and lag markers alike.
pub open spec fn goes_on(drained: Drained) -> bool {
    drained == Drained::Sample || drained == Drained::Lagged
}

/// Whether draining goes on. A lagged receiver is drained further: the lag
/// marker stands before a backlog of stale samples.
pub fn drain_goes_on(drained: Drained) -> (r: bool)
    ensures
        r == goes_on(drained),
{
    match drained {
        Drained::Sample => true,
        Drained::Lagged => true,
        Drained::Empty => false,
        Drained::Closed => false,
    }
}

/// How a capture is announced.
pub open spec fn announcement(kind: SystemKind, role: Role, num_samples: usize) -> Seq<
    CaptureStep,
> {
    seq![
        CaptureStep::Ui(UiUpdate::IsWaitingForCapture(false)),
        CaptureStep::Ui(UiUpdate::IsMeasuring(true)),
        CaptureStep::Ui(UiUpdate::CurrentMode(Text::Capturing(role, kind))),
        CaptureStep::Ui(UiUpdate::CurrentModeIsBase(role == Role::Base)),
        CaptureStep::Ui(UiUpdate::ProgressSamples(0)),
        CaptureStep::Ui(UiUpdate::TotalSamples(num_samples as i32)),
        CaptureStep::Ui(UiUpdate::Status(Text::Settling)),
    ]
}

/// The steps of some parameter writes.
pub open spec fn write_steps(writes: Seq<ParamWrite>) -> Seq<CaptureStep> {
    writes.map_values(|w: ParamWrite| CaptureStep::Write(w))
}

/// The writes of a capture: the estimator is switched to the one system and
/// reset.
pub open spec fn spec_capture_writes(kind: SystemKind) -> Seq<ParamWrite> {
    let (lighthouse, loco) = kind.spec_estimator_sources();
    spec_set_estimator_sources(lighthouse, loco) + spec_reset_estimator()
}

/// What follows the writes: the settle time, and fresh samples.
pub open spec fn sampling(num_samples: usize) -> Seq<CaptureStep> {
    seq![
        CaptureStep::Settle,
        CaptureStep::DrainStale,
        CaptureStep::Ui(UiUpdate::Status(Text::CollectingSamples)),
        CaptureStep::Collect(num_samples),
    ]
}

/// All steps of a capture in which nothing fails: it is announced, the estimator
/// is switched to the one system and reset, and after the settle time fresh
/// samples are collected.
pub open spec fn spec_capture_position(kind: SystemKind, role: Role, num_samples: usize) -> Seq<
    CaptureStep,
> {
    announcement(kind, role, num_samples) + write_steps(spec_capture_writes(kind)) + sampling(
        num_samples,
    )
}

/// What a capture waits for.
#[derive(Clone, Copy, Debug, PartialEq, Eq, Structural)]
pub enum CapturePhase {
    /// That the forwarding of the Lighthouse system is set.
    SettingLighthouse,
    /// That the forwarding of the Loco system is set.
    SettingLoco,
    /// That the estimator's reset flag is raised.
    RaisingReset,
    /// That the estimator's reset flag is lowered.
    LoweringReset,
    /// That the samples are collected.
    Collecting,
    /// Nothing more: the samples were collected.
    Finished,
    /// Nothing more: a write or the collecting failed.
    Failed,
}

/// A capture.
#[derive(Clone, Copy, Debug, PartialEq, Eq, Structural)]
pub struct CaptureRun {
    pub kind: SystemKind,
    pub num_samples: usize,
    pub phase: CapturePhase,
}

/// The writes that a capture makes, in order.
fn capture_writes(kind: SystemKind) -> (r: Vec<ParamWrite>)
    ensures
        r@ == spec_capture_writes(kind),
{
    let (lighthouse, loco) = kind.estimator_sources();
    let mut writes = set_estimator_sources(lighthouse, loco);
    let mut resets = reset_estimator();
    writes.append(&mut resets);
    writes
}

/// Begins a capture that switches the estimator to `kind`, resets it, waits for
/// it to settle, and collects samples; says what is to be done.
pub fn capture_position(kind: SystemKind, role: Role, config: &MeasurementConfig) -> (r: (
    CaptureRun,
    Vec<CaptureStep>,
))
    ensures
        r.0 == CaptureRun::spec_start(kind, config.num_samples),
        r.1@ == first_steps(kind, role, config.num_samples),
{
    let mut steps: Vec<CaptureStep> = Vec::new();
    steps.push(CaptureStep::Ui(UiUpdate::IsWaitingForCapture(false)));
    steps.push(CaptureStep::Ui(UiUpdate::IsMeasuring(true)));
    steps.push(CaptureStep::Ui(UiUpdate::CurrentMode(Text::Capturing(role, kind))));
    steps.push(CaptureStep::Ui(UiUpdate::CurrentModeIsBase(role == Role::Base)));
    steps.push(CaptureStep::Ui(UiUpdate::ProgressSamples(0)));
    steps.push(CaptureStep::Ui(UiUpdate::TotalSamples(config.num_samples as i32)));
    steps.push(CaptureStep::Ui(UiUpdate::Status(Text::Settling)));
    let writes = capture_writes(kind);
    steps.push(CaptureStep::Write(writes[0]));
    (
        CaptureRun {
            kind,
            num_samples: config.num_samples,
            phase: CapturePhase::SettingLighthouse,
        },
        steps,
    )
}

/// How a capture begins: it is announced, and the first parameter is written.
pub open spec fn first_steps(kind: SystemKind, role: Role, num_samples: usize) -> Seq<
    CaptureStep,
> {
    announcement(kind, role, num_samples).push(CaptureStep::Write(spec_capture_writes(kind)[0]))
}

impl CaptureRun {
    /// A capture before its first outcome.
    pub open spec fn spec_start(kind: SystemKind, num_samples: usize) -> CaptureRun {
        CaptureRun { kind, num_samples, phase: CapturePhase::SettingLighthouse }
    }

    /// What follows the work of the phase; `ok` tells whether it succeeded. A
    /// write or a collecting that failed ends the capture.
    pub open spec fn step(self, ok: bool) -> (CaptureRun, Seq<CaptureStep>) {
        let enter = |phase: CapturePhase| CaptureRun { phase, ..self };
        let write = |i: int| seq![CaptureStep::Write(spec_capture_writes(self.kind)[i])];
        if self.phase is Finished || self.phase is Failed {
            (self, seq![])
        } else if !ok {
            (enter(CapturePhase::Failed), seq![])
        } else {
            match self.phase {
                CapturePhase::SettingLighthouse => (enter(CapturePhase::SettingLoco), write(1)),
                CapturePhase::SettingLoco => (enter(CapturePhase::RaisingReset), write(2)),
                CapturePhase::RaisingReset => (enter(CapturePhase::LoweringReset), write(3)),
                CapturePhase::LoweringReset => (
                    enter(CapturePhase::Collecting),
                    sampling(self.num_samples),
                ),
                _ => (enter(CapturePhase::Finished), seq![]),
            }
        }
    }

    /// Takes the outcome of the phase's work, and says what is to be done.
    pub fn handle(&mut self, ok: bool) -> (r: Vec<CaptureStep>)
        ensures
            (*final(self), r@) == old(self).step(ok),
    {
        let mut steps: Vec<CaptureStep> = Vec::new();
        if self.is_ended() {
            return steps;
        }
        if !ok {
            self.phase = CapturePhase::Failed;
            return steps;
        }
        let writes = capture_writes(self.kind);
        match self.phase {
            CapturePhase::SettingLighthouse => {
                self.phase = CapturePhase::SettingLoco;
                steps.push(CaptureStep::Write(writes[1]));
            },
            CapturePhase::SettingLoco => {
                self.phase = CapturePhase::RaisingReset;
                steps.push(CaptureStep::Write(writes[2]));
            },
            CapturePhase::RaisingReset => {
                self.phase = CapturePhase::LoweringReset;
                steps.push(CaptureStep::Write(writes[3]));
            },
            CapturePhase::LoweringReset => {
                self.phase = CapturePhase::Collecting;
                steps.push(CaptureStep::Settle);
                steps.push(CaptureStep::DrainStale);
                steps.push(CaptureStep::Ui(UiUpdate::Status(Text::CollectingSamples)));
                steps.push(CaptureStep::Collect(self.num_samples));
            },
            _ => {
                self.phase = CapturePhase::Finished;
            },
        }
        steps
    }

    /// Whether nothing more is waited for.
    pub fn is_ended(&self) -> (r: bool)
        ensures
            r == (self.phase is Finished || self.phase is Failed),
    {
        match self.phase {
            CapturePhase::Finished => true,
            CapturePhase::Failed => true,
            _ => false,
        }
    }
}

/// A capture over a series of outcomes: where it ends up, and all that was to be
/// done.
pub open spec fn capture_over(run: CaptureRun, outcomes: Seq<bool>) -> (
    CaptureRun,
    Seq<CaptureStep>,
)
    decreases outcomes.len(),
{
    if outcomes.len() == 0 {
        (run, seq![])
    } else {
        let (next, steps) = run.step(outcomes[0]);
        let (last, more) = capture_over(next, outcomes.drop_first());
        (last, steps + more)
    }
}

/// The phase that waits for the write at place `i`; after the last write, for
/// the samples.
spec fn phase_at(i: int) -> CapturePhase {
    if i == 0 {
        CapturePhase::SettingLighthouse
    } else if i == 1 {
        CapturePhase::SettingLoco
    } else if i == 2 {
        CapturePhase::RaisingReset
    } else if i == 3 {
        CapturePhase::LoweringReset
    } else {
        CapturePhase::Collecting
    }
}

proof fn lemma_ended(run: CaptureRun, outcomes: Seq<bool>)
    requires
        run.phase is Finished || run.phase is Failed,
    ensures
        capture_over(run, outcomes) == (run, Seq::<CaptureStep>::empty()),
    decreases outcomes.len(),
{
    if outcomes.len() > 0 {
        lemma_ended(run, outcomes.drop_first());
    }
}

proof fn lemma_stops_at(run: CaptureRun, i: int, outcomes: Seq<bool>, k: int)
    requires
        0 <= i <= k < 4,
        run.phase == phase_at(i),
        outcomes.len() > k - i,
        forall|j: int| 0 <= j < k - i ==> #[trigger] outcomes[j],
        !outcomes[k - i],
    ensures
        capture_over(run, outcomes).0.phase is Failed,
        capture_over(run, outcomes).1 == write_steps(spec_capture_writes(run.kind)).subrange(
            i + 1,
            k + 1,
        ),
    decreases k - i,
{
    let (next, steps) = run.step(outcomes[0]);
    let rest = outcomes.drop_first();
    if i == k {
        lemma_ended(next, rest);
    } else {
        assert(outcomes[0]);
        assert forall|j: int| 0 <= j < k - (i + 1) implies #[trigger] rest[j] by {
            assert(outcomes[j + 1]);
        }
        lemma_stops_at(next, i + 1, rest, k);
        assert(steps =~= write_steps(spec_capture_writes(run.kind)).subrange(i + 1, i + 2));
    }
    assert(capture_over(run, outcomes).1 =~= write_steps(
        spec_capture_writes(run.kind),
    ).subrange(i + 1, k + 1));
}

/// A write that fails, or is not answered in time, ends the capture: the writes
/// up to it were made, and no later one is, nothing is waited for and no sample
/// is collected, whatever comes after.
pub proof fn failed_write_ends_the_capture(
    kind: SystemKind,
    role: Role,
    num_samples: usize,
    outcomes: Seq<bool>,
    k: int,
)
    requires
        0 <= k < 4,
        k < outcomes.len(),
        forall|j: int| 0 <= j < k ==> #[trigger] outcomes[j],
        !outcomes[k],
    ensures
        capture_over(CaptureRun::spec_start(kind, num_samples), outcomes).0.phase is Failed,
        first_steps(kind, role, num_samples) + capture_over(
            CaptureRun::spec_start(kind, num_samples),
            outcomes,
        ).1 == announcement(kind, role, num_samples) + write_steps(
            spec_capture_writes(kind).take(k + 1),
        ),
{
    let run = CaptureRun::spec_start(kind, num_samples);
    lemma_stops_at(run, 0, outcomes, k);
    assert(first_steps(kind, role, num_samples) + capture_over(run, outcomes).1 =~= announcement(
        kind,
        role,
        num_samples,
    ) + write_steps(spec_capture_writes(kind).take(k + 1)));
}

proof fn lemma_collect_needs_writes(run: CaptureRun, i: int, outcomes: Seq<bool>, at: int)
    requires
        0 <= i < 4,
        run.phase == phase_at(i),
        0 <= at < capture_over(run, outcomes).1.len(),
        capture_over(run, outcomes).1[at] is Collect,
    ensures
        outcomes.len() >= 4 - i,
        forall|j: int| 0 <= j < 4 - i ==> #[trigger] outcomes[j],
    decreases 4 - i,
{
    let (next, steps) = run.step(outcomes[0]);
    let rest = outcomes.drop_first();
    if !outcomes[0] {
        lemma_ended(next, rest);
    } else if i < 3 {
        lemma_collect_needs_writes(next, i + 1, rest, at - steps.len());
        assert forall|j: int| 0 <= j < 4 - i implies #[trigger] outcomes[j] by {
            if j > 0 {
                assert(rest[j - 1]);
            }
        }
    }
}

/// Samples are collected only after all four writes succeeded.
pub proof fn collecting_needs_every_write(
    kind: SystemKind,
    role: Role,
    num_samples: usize,
    outcomes: Seq<bool>,
    at: int,
)
    requires
        0 <= at < (first_steps(kind, role, num_samples) + capture_over(
            CaptureRun::spec_start(kind, num_samples),
            outcomes,
        ).1).len(),
        (first_steps(kind, role, num_samples) + capture_over(
            CaptureRun::spec_start(kind, num_samples),
            outcomes,
        ).1)[at] is Collect,
    ensures
        outcomes.len() >= 4,
        outcomes[0] && outcomes[1] && outcomes[2] && outcomes[3],
{
    let run = CaptureRun::spec_start(kind, num_samples);
    let n: int = first_steps(kind, role, num_samples).len() as int;
    lemma_collect_needs_writes(run, 0, outcomes, at - n);
}

/// A capture whose writes and whose collecting succeed does all its steps, in
/// order, and finishes.
pub proof fn undisturbed_capture_does_every_step(
    kind: SystemKind,
    role: Role,
    num_samples: usize,
)
    ensures
        ({
            let (last, more) = capture_over(
                CaptureRun::spec_start(kind, num_samples),
                seq![true, true, true, true, true],
            );
            &&& last.phase is Finished
            &&& first_steps(kind, role, num_samples) + more == spec_capture_position(
                kind,
                role,
                num_samples,
            )
        }),
{
    let s0 = CaptureRun::spec_start(kind, num_samples);
    let s1 = s0.step(true).0;
    let s2 = s1.step(true).0;
    let s3 = s2.step(true).0;
    let s4 = s3.step(true).0;
    let s5 = s4.step(true).0;
    let o5 = seq![true, true, true, true, true];
    let o4 = o5.drop_first();
    let o3 = o4.drop_first();
    let o2 = o3.drop_first();
    let o1 = o2.drop_first();
    let o0 = o1.drop_first();
    assert(capture_over(s5, o0) == (s5, Seq::<CaptureStep>::empty()));
    assert(capture_over(s4, o1).1 =~= seq![]);
    assert(capture_over(s3, o2).1 =~= sampling(num_samples));
    assert(capture_over(s2, o3).1 =~= s2.step(true).1 + sampling(num_samples));
    assert(capture_over(s1, o4).1 =~= s1.step(true).1 + s2.step(true).1 + sampling(num_samples));
    assert(capture_over(s0, o5).1 =~= s0.step(true).1 + s1.step(true).1 + s2.step(true).1
        + sampling(num_samples));
    assert(first_steps(kind, role, num_samples) + capture_over(s0, o5).1 =~= spec_capture_position(
        kind,
        role,
        num_samples,
    ));
}

/// A capture first forwards the captured system alone, then resets the
/// estimator, then lets it settle, then throws away what came before, and only
/// then collects.
pub proof fn capture_collects_fresh_samples_of_one_system(
    kind: SystemKind,
    role: Role,
    num_samples: usize,
)
    ensures
        ({
            let steps = spec_capture_position(kind, role, num_samples);
            let forward = |k: SystemKind|
                CaptureStep::Write(
                    ParamWrite {
                        operation: Operation::SetForwarding(k),
                        value: if k == kind {
                            1
                        } else {
                            0
                        },
                    },
                );
            let reset = |on: bool|
                CaptureStep::Write(
                    ParamWrite {
                        operation: Operation::SetReset(on),
                        value: if on {
                            1
                        } else {
                            0
                        },
                    },
                );
            let n = steps.len();
            &&& n >= 8
            &&& forall|i: int| 0 <= i < n - 8 ==> #[trigger] steps[i] is Ui
            &&& steps[n - 8] == forward(SystemKind::Lighthouse)
            &&& steps[n - 7] == forward(SystemKind::Loco)
            &&& steps[n - 6] == reset(true)
            &&& steps[n - 5] == reset(false)
            &&& steps[n - 4] is Settle
            &&& steps[n - 3] is DrainStale
            &&& steps[n - 2] is Ui
            &&& steps[n - 1] == CaptureStep::Collect(num_samples)
        }),
{
}

/// What a receiver that does not wait says of the item that is next.
pub open spec fn drained_as<T>(event: SampleEvent<T>) -> Drained {
    match event {
        SampleEvent::Sample(..) => Drained::Sample,
        SampleEvent::Lagged => Drained::Lagged,
        SampleEvent::Closed => Drained::Closed,
        SampleEvent::TimedOut => Drained::Empty,
    }
}

/// What is left of the pending items after draining.
pub open spec fn left_after_drain<T>(pending: Seq<SampleEvent<T>>) -> Seq<SampleEvent<T>>
    decreases pending.len(),
{
    if pending.len() > 0 && goes_on(drained_as(pending[0])) {
        left_after_drain(pending.drop_first())
    } else {
        pending
    }
}

/// What a capture collects where `pending` was there at the end of the settle
/// time and `later` comes after it: draining, and then collecting from what is
/// left and from what comes.
pub open spec fn collected<T>(
    pending: Seq<SampleEvent<T>>,
    later: Seq<Turn<T>>,
    wanted: nat,
    stop: bool,
) -> Collecting<T> {
    collecting(
        seq![],
        wanted,
        left_after_drain(pending).map_values(
            |event: SampleEvent<T>| Turn { stop_before: false, event, stop_after: false },
        ) + later,
        stop,
    )
}

/// Draining goes on through every sample and every lag marker: it leaves nothing
/// of a backlog.
pub proof fn draining_leaves_nothing<T>(pending: Seq<SampleEvent<T>>)
    requires
        forall|i: int|
            0 <= i < pending.len() ==> (#[trigger] pending[i] is Sample || pending[i] is Lagged),
    ensures
        left_after_drain(pending) == Seq::<SampleEvent<T>>::empty(),
    decreases pending.len(),
{
    if pending.len() > 0 {
        let rest = pending.drop_first();
        assert forall|i: int| 0 <= i < rest.len() implies (#[trigger] rest[i] is Sample
            || rest[i] is Lagged) by {
            assert(rest[i] == pending[i + 1]);
        }
        draining_leaves_nothing(rest);
    }
}

/// What came before the end of the settle time makes no difference: of two
/// captures that see the same from then on, whatever samples and lag markers
/// were pending, both collect the same, and only from what came after.
pub proof fn stale_samples_make_no_difference<T>(
    pending: Seq<SampleEvent<T>>,
    other: Seq<SampleEvent<T>>,
    later: Seq<Turn<T>>,
    wanted: nat,
    stop: bool,
)
    requires
        forall|i: int|
            0 <= i < pending.len() ==> (#[trigger] pending[i] is Sample || pending[i] is Lagged),
        forall|i: int|
            0 <= i < other.len() ==> (#[trigger] other[i] is Sample || other[i] is Lagged),
    ensures
        collected(pending, later, wanted, stop) == collected(other, later, wanted, stop),
        collected(pending, later, wanted, stop) == collecting(seq![], wanted, later, stop),
{
    draining_leaves_nothing(pending);
    draining_leaves_nothing(other);
    let turn = |event: SampleEvent<T>| Turn { stop_before: false, event, stop_after: false };
    assert(left_after_drain(pending).map_values(turn) + later =~= later);
}

/// Whatever the outcome, a capture keeps its system and its number of samples:
/// it forwards that system and no other, and collects that many samples.
pub proof fn capture_is_of_its_system(run: &mut CaptureRun, ok: bool, r: Vec<CaptureStep>, i: int)
    requires
        call_ensures(CaptureRun::handle, (run, ok), r),
        0 <= i < r@.len(),
    ensures
        final(run).kind == old(run).kind,
        final(run).num_samples == old(run).num_samples,
        r@[i] matches CaptureStep::Collect(n) ==> n == old(run).num_samples,
        r@[i] matches CaptureStep::Write(write) ==> match write.operation {
            Operation::SetForwarding(kind) => write.value == (if kind == old(run).kind {
                1u8
            } else {
                0u8
            }),
            Operation::SetReset(on) => write.value == (if on {
                1u8
            } else {
                0u8
            }),
            _ => false,
        },
{
}

/// A capture begins by telling the user: that it is under way, which system it
/// captures in which role, how many samples are wanted and that none is there
/// yet. Then, and only then, it writes.
pub proof fn capture_is_announced(
    kind: SystemKind,
    role: Role,
    config: &MeasurementConfig,
    r: (CaptureRun, Vec<CaptureStep>),
    i: int,
)
    requires
        call_ensures(capture_position, (kind, role, config), r),
    ensures
        r.0.kind == kind,
        r.0.num_samples == config.num_samples,
        !(r.0.phase is Finished || r.0.phase is Failed),
        r.1@.contains(CaptureStep::Ui(UiUpdate::IsWaitingForCapture(false))),
        r.1@.contains(CaptureStep::Ui(UiUpdate::IsMeasuring(true))),
        r.1@.contains(CaptureStep::Ui(UiUpdate::CurrentMode(Text::Capturing(role, kind)))),
        r.1@.contains(CaptureStep::Ui(UiUpdate::CurrentModeIsBase(role is Base))),
        r.1@.contains(CaptureStep::Ui(UiUpdate::ProgressSamples(0))),
        r.1@.contains(CaptureStep::Ui(UiUpdate::TotalSamples(config.num_samples as i32))),
        r.1@.contains(CaptureStep::Ui(UiUpdate::Status(Text::Settling))),
        0 <= i < r.1@.len() - 1 ==> r.1@[i] is Ui,
        r.1@.last() == CaptureStep::Write(
            ParamWrite {
                operation: Operation::SetForwarding(SystemKind::Lighthouse),
                value: if kind == SystemKind::Lighthouse {
                    1
                } else {
                    0
                },
            },
        ),
{
    let steps = r.1@;
    assert(steps[0] == CaptureStep::Ui(UiUpdate::IsWaitingForCapture(false)));
    assert(steps[1] == CaptureStep::Ui(UiUpdate::IsMeasuring(true)));
    assert(steps[2] == CaptureStep::Ui(UiUpdate::CurrentMode(Text::Capturing(role, kind))));
    assert(steps[3] == CaptureStep::Ui(UiUpdate::CurrentModeIsBase(role is Base)));
    assert(steps[4] == CaptureStep::Ui(UiUpdate::ProgressSamples(0)));
    assert(steps[5] == CaptureStep::Ui(UiUpdate::TotalSamples(config.num_samples as i32)));
    assert(steps[6] == CaptureStep::Ui(UiUpdate::Status(Text::Settling)));
}

/// Draining goes on exactly through what was pending.
pub proof fn draining_takes_what_is_pending(drained: Drained, r: bool)
    requires
        call_ensures(drain_goes_on, (drained,), r),
    ensures
        r <==> !(drained is Empty || drained is Closed),
{
}

/// A capture that has ended does nothing more; one that has not ends at once on a
/// failure.
pub proof fn ended_capture_does_nothing(run: &CaptureRun, ended: bool, ok: bool)
    requires
        call_ensures(CaptureRun::is_ended, (run,), ended),
    ensures
        ended ==> run.step(ok) == (*run, Seq::<CaptureStep>::empty()),
        !ended ==> run.step(false).0.phase is Failed && run.step(false).1.len() == 0,
        !ended ==> run.step(true).0 != *run,
{
}

} // verus!
