//! A measurement run: the base and the moving system are captured in turn at
//! every point.
use crate::config::MeasurementConfig;
use crate::stats::{deviation_role, spec_deviation_role, PointResult, PositionStats};
use crate::system::{Role, SystemKind};
use crate::ui::{Text, UiUpdate};
use vstd::prelude::*;

verus! {

/// What the run waits for.
#[derive(Clone, Copy, Debug, PartialEq)]
pub enum RunPhase<T> {
    /// The user's word to capture the base system.
    AwaitBase,
    /// The capture of the base system.
    CaptureBase,
    /// The user's word to capture the moving system.
    AwaitMoving(PositionStats<T>),
    /// The capture of the moving system.
    CaptureMoving(PositionStats<T>),
    /// Nothing more.
    Done,
}

/// What happened.
#[derive(Clone, Copy, Debug, PartialEq)]
pub enum RunEvent<T> {
    /// The user asked for the capture.
    Proceed,
    /// The user can ask no more.
    Closed,
    /// The capture gave these statistics.
    Captured(PositionStats<T>),
    /// The capture failed.
    CaptureFailed,
}

/// A row of the table of measured points: the point, and whose deviation stands
/// in the column of each system.
#[derive(Clone, Copy, Debug, PartialEq)]
pub struct ResultRow<T> {
    pub point: i32,
    pub result: PointResult<T>,
    pub lh_std: Option<Role>,
    pub loco_std: Option<Role>,
}

/// What is to be done.
#[derive(Clone, Copy, Debug, PartialEq)]
pub enum RunAction<T> {
    Ui(UiUpdate),
    /// Wait until the user asks for the capture.
    AwaitCapture,
    /// Capture what a system reports.
    Capture(SystemKind, Role),
    AppendRow(ResultRow<T>),
    /// Forward both systems to the estimator again.
    RestoreSources,
}

/// A measurement run.
#[derive(Clone, Debug)]
pub struct MeasurementRun<T> {
    pub config: MeasurementConfig,
    pub results: Vec<PointResult<T>>,
    pub phase: RunPhase<T>,
}

/// The state of a run.
#[verifier::ext_equal]
pub struct RunState<T> {
    pub config: MeasurementConfig,
    pub results: Seq<PointResult<T>>,
    pub phase: RunPhase<T>,
}

impl<T> View for MeasurementRun<T> {
    type V = RunState<T>;

    open spec fn view(&self) -> RunState<T> {
        RunState { config: self.config, results: self.results@, phase: self.phase }
    }
}

/// How the user is asked for the capture of the base system at point `n`.
pub open spec fn ask_base<T>(config: MeasurementConfig, n: usize) -> Seq<RunAction<T>> {
    seq![
        RunAction::Ui(UiUpdate::IsWaitingForCapture(true)),
        RunAction::Ui(UiUpdate::IsMeasuring(false)),
        RunAction::Ui(UiUpdate::CurrentMode(Text::Empty)),
        RunAction::Ui(UiUpdate::CurrentPoint(n as i32)),
        RunAction::Ui(UiUpdate::TotalPointsDisplay(config.num_points as i32)),
        RunAction::Ui(UiUpdate::CaptureButtonLabel(Text::CaptureButton(Role::Base))),
        RunAction::Ui(
            UiUpdate::Status(
                Text::Instruction {
                    role: Role::Base,
                    kind: config.base_kind,
                    other_kind: config.moving_kind,
                    point_n: n,
                    total: config.num_points,
                    is_first_step: true,
                },
            ),
        ),
        RunAction::AwaitCapture,
    ]
}

/// How the user is asked for the capture of the moving system at point `n`.
pub open spec fn ask_moving<T>(config: MeasurementConfig, n: usize) -> Seq<RunAction<T>> {
    seq![
        RunAction::Ui(UiUpdate::IsWaitingForCapture(true)),
        RunAction::Ui(UiUpdate::IsMeasuring(false)),
        RunAction::Ui(UiUpdate::CurrentMode(Text::Empty)),
        RunAction::Ui(UiUpdate::CaptureButtonLabel(Text::CaptureButton(Role::Moving))),
        RunAction::Ui(
            UiUpdate::Status(
                Text::Instruction {
                    role: Role::Moving,
                    kind: config.moving_kind,
                    other_kind: config.base_kind,
                    point_n: n,
                    total: config.num_points,
                    is_first_step: false,
                },
            ),
        ),
        RunAction::AwaitCapture,
    ]
}

/// What is done when a capture fails.
pub open spec fn report_failure<T>(role: Role) -> Seq<RunAction<T>> {
    seq![
        RunAction::Ui(UiUpdate::Error(Text::CaptureFailed(role))),
        RunAction::Ui(UiUpdate::IsRunning(false)),
        RunAction::RestoreSources,
    ]
}

/// The row for a measured point.
pub open spec fn row_of<T>(config: MeasurementConfig, result: PointResult<T>) -> ResultRow<T> {
    ResultRow {
        point: (result.point_index + 1) as i32,
        result,
        lh_std: spec_deviation_role(
            SystemKind::Lighthouse,
            config.base_kind,
            config.moving_kind,
        ),
        loco_std: spec_deviation_role(SystemKind::Loco, config.base_kind, config.moving_kind),
    }
}

impl<T> RunState<T> {
    /// A point is measured at a time, in order, and no more than are wanted.
    pub open spec fn wf(self) -> bool {
        &&& self.results.len() <= self.config.num_points
        &&& !(self.phase is Done) ==> self.results.len() < self.config.num_points
        &&& forall|k: int|
            0 <= k < self.results.len() ==> (#[trigger] self.results[k]).point_index == k
    }

    /// The run in another phase.
    pub open spec fn enter(self, phase: RunPhase<T>) -> RunState<T> {
        RunState { phase, ..self }
    }

    /// The number of the point that is being measured.
    pub open spec fn point_n(self) -> usize {
        (self.results.len() + 1) as usize
    }

    /// The run after a step, and what is to be done. An event that the phase
    /// does not wait for changes nothing.
    pub open spec fn step(self, event: RunEvent<T>, stop: bool) -> (RunState<T>, Seq<
        RunAction<T>,
    >) {
        let finished = (self.enter(RunPhase::Done), seq![RunAction::RestoreSources]);
        match (self.phase, event) {
            (RunPhase::AwaitBase, RunEvent::Proceed) => if stop {
                finished
            } else {
                (
                    self.enter(RunPhase::CaptureBase),
                    seq![RunAction::Capture(self.config.base_kind, Role::Base)],
                )
            },
            (RunPhase::AwaitBase, RunEvent::Closed) => finished,
            (RunPhase::CaptureBase, RunEvent::Captured(base)) => if stop {
                finished
            } else {
                (
                    self.enter(RunPhase::AwaitMoving(base)),
                    ask_moving(self.config, self.point_n()),
                )
            },
            (RunPhase::CaptureBase, RunEvent::CaptureFailed) => (
                self.enter(RunPhase::Done),
                report_failure(Role::Base),
            ),
            (RunPhase::AwaitMoving(base), RunEvent::Proceed) => if stop {
                finished
            } else {
                (
                    self.enter(RunPhase::CaptureMoving(base)),
                    seq![RunAction::Capture(self.config.moving_kind, Role::Moving)],
                )
            },
            (RunPhase::AwaitMoving(_), RunEvent::Closed) => finished,
            (RunPhase::CaptureMoving(base), RunEvent::Captured(moving)) => if stop {
                finished
            } else {
                self.measured(base, moving)
            },
            (RunPhase::CaptureMoving(_), RunEvent::CaptureFailed) => (
                self.enter(RunPhase::Done),
                report_failure(Role::Moving),
            ),
            _ => (self, seq![]),
        }
    }

    /// The run after both systems were captured at a point: the point is
    /// recorded, and the next one begins if one is left.
    pub open spec fn measured(self, base: PositionStats<T>, moving: PositionStats<T>) -> (
        RunState<T>,
        Seq<RunAction<T>>,
    ) {
        let result = PointResult { point_index: self.results.len() as usize, base, moving };
        let recorded = RunState { results: self.results.push(result), ..self };
        let row = seq![RunAction::AppendRow(row_of(self.config, result))];
        if recorded.results.len() < self.config.num_points {
            (
                recorded.enter(RunPhase::AwaitBase),
                row + ask_base(self.config, recorded.point_n()),
            )
        } else {
            (recorded.enter(RunPhase::Done), row + seq![RunAction::RestoreSources])
        }
    }

    /// The run before its first event, and what is to be done.
    pub open spec fn start(config: MeasurementConfig) -> (RunState<T>, Seq<RunAction<T>>) {
        if config.num_points > 0 {
            (
                RunState { config, results: seq![], phase: RunPhase::AwaitBase },
                ask_base(config, 1),
            )
        } else {
            (
                RunState { config, results: seq![], phase: RunPhase::Done },
                seq![RunAction::RestoreSources],
            )
        }
    }
}

fn push_ask_base<T: Copy>(actions: &mut Vec<RunAction<T>>, config: &MeasurementConfig, n: usize)
    ensures
        final(actions)@ == old(actions)@ + ask_base(*config, n),
{
    actions.push(RunAction::Ui(UiUpdate::IsWaitingForCapture(true)));
    actions.push(RunAction::Ui(UiUpdate::IsMeasuring(false)));
    actions.push(RunAction::Ui(UiUpdate::CurrentMode(Text::Empty)));
    actions.push(RunAction::Ui(UiUpdate::CurrentPoint(n as i32)));
    actions.push(RunAction::Ui(UiUpdate::TotalPointsDisplay(config.num_points as i32)));
    actions.push(
        RunAction::Ui(UiUpdate::CaptureButtonLabel(Text::CaptureButton(Role::Base))),
    );
    actions.push(
        RunAction::Ui(
            UiUpdate::Status(
                Text::Instruction {
                    role: Role::Base,
                    kind: config.base_kind,
                    other_kind: config.moving_kind,
                    point_n: n,
                    total: config.num_points,
                    is_first_step: true,
                },
            ),
        ),
    );
    actions.push(RunAction::AwaitCapture);
}

fn push_ask_moving<T: Copy>(actions: &mut Vec<RunAction<T>>, config: &MeasurementConfig, n: usize)
    ensures
        final(actions)@ == old(actions)@ + ask_moving(*config, n),
{
    actions.push(RunAction::Ui(UiUpdate::IsWaitingForCapture(true)));
    actions.push(RunAction::Ui(UiUpdate::IsMeasuring(false)));
    actions.push(RunAction::Ui(UiUpdate::CurrentMode(Text::Empty)));
    actions.push(
        RunAction::Ui(UiUpdate::CaptureButtonLabel(Text::CaptureButton(Role::Moving))),
    );
    actions.push(
        RunAction::Ui(
            UiUpdate::Status(
                Text::Instruction {
                    role: Role::Moving,
                    kind: config.moving_kind,
                    other_kind: config.base_kind,
                    point_n: n,
                    total: config.num_points,
                    is_first_step: false,
                },
            ),
        ),
    );
    actions.push(RunAction::AwaitCapture);
}

fn push_report_failure<T: Copy>(actions: &mut Vec<RunAction<T>>, role: Role)
    ensures
        final(actions)@ == old(actions)@ + report_failure(role),
{
    actions.push(RunAction::Ui(UiUpdate::Error(Text::CaptureFailed(role))));
    actions.push(RunAction::Ui(UiUpdate::IsRunning(false)));
    actions.push(RunAction::RestoreSources);
}

impl<T: Copy> MeasurementRun<T> {
    /// Begins a run, and says what is to be done.
    pub fn start(config: MeasurementConfig) -> (r: (Self, Vec<RunAction<T>>))
        ensures
            r.0@.wf(),
            (r.0@, r.1@) == RunState::<T>::start(config),
    {
        let mut actions: Vec<RunAction<T>> = Vec::new();
        let phase = if config.num_points > 0 {
            push_ask_base(&mut actions, &config, 1);
            RunPhase::AwaitBase
        } else {
            actions.push(RunAction::RestoreSources);
            RunPhase::Done
        };
        (MeasurementRun { config, results: Vec::new(), phase }, actions)
    }

    /// Whether nothing more is waited for.
    pub fn is_done(&self) -> (r: bool)
        ensures
            r == (self@.phase is Done),
    {
        match self.phase {
            RunPhase::Done => true,
            _ => false,
        }
    }

    /// Takes an event, and says what is to be done. `stop` tells whether the
    /// run has been stopped by then.
    pub fn handle(&mut self, event: RunEvent<T>, stop: bool) -> (r: Vec<RunAction<T>>)
        requires
            old(self)@.wf(),
        ensures
            final(self)@.wf(),
            (final(self)@, r@) == old(self)@.step(event, stop),
    {
        let mut actions: Vec<RunAction<T>> = Vec::new();
        match (self.phase, event) {
            (RunPhase::AwaitBase, RunEvent::Proceed) => {
                if stop {
                    self.phase = RunPhase::Done;
                    actions.push(RunAction::RestoreSources);
                } else {
                    self.phase = RunPhase::CaptureBase;
                    actions.push(RunAction::Capture(self.config.base_kind, Role::Base));
                }
            },
            (RunPhase::AwaitBase, RunEvent::Closed) => {
                self.phase = RunPhase::Done;
                actions.push(RunAction::RestoreSources);
            },
            (RunPhase::CaptureBase, RunEvent::Captured(base)) => {
                if stop {
                    self.phase = RunPhase::Done;
                    actions.push(RunAction::RestoreSources);
                } else {
                    self.phase = RunPhase::AwaitMoving(base);
                    push_ask_moving(&mut actions, &self.config, self.results.len() + 1);
                }
            },
            (RunPhase::CaptureBase, RunEvent::CaptureFailed) => {
                self.phase = RunPhase::Done;
                push_report_failure(&mut actions, Role::Base);
            },
            (RunPhase::AwaitMoving(base), RunEvent::Proceed) => {
                if stop {
                    self.phase = RunPhase::Done;
                    actions.push(RunAction::RestoreSources);
                } else {
                    self.phase = RunPhase::CaptureMoving(base);
                    actions.push(RunAction::Capture(self.config.moving_kind, Role::Moving));
                }
            },
            (RunPhase::AwaitMoving(_), RunEvent::Closed) => {
                self.phase = RunPhase::Done;
                actions.push(RunAction::RestoreSources);
            },
            (RunPhase::CaptureMoving(base), RunEvent::Captured(moving)) => {
                if stop {
                    self.phase = RunPhase::Done;
                    actions.push(RunAction::RestoreSources);
                } else {
                    self.record(base, moving, &mut actions);
                }
            },
            (RunPhase::CaptureMoving(_), RunEvent::CaptureFailed) => {
                self.phase = RunPhase::Done;
                push_report_failure(&mut actions, Role::Moving);
            },
            _ => {},
        }
        actions
    }

    fn record(
        &mut self,
        base: PositionStats<T>,
        moving: PositionStats<T>,
        actions: &mut Vec<RunAction<T>>,
    )
        requires
            old(self)@.wf(),
            !(old(self)@.phase is Done),
            old(actions)@.len() == 0,
        ensures
            final(self)@.wf(),
            (final(self)@, final(actions)@) == old(self)@.measured(base, moving),
    {
        let result = PointResult { point_index: self.results.len(), base, moving };
        actions.push(
            RunAction::AppendRow(
                ResultRow {
                    point: (result.point_index + 1) as i32,
                    result,
                    lh_std: deviation_role(
                        SystemKind::Lighthouse,
                        self.config.base_kind,
                        self.config.moving_kind,
                    ),
                    loco_std: deviation_role(
                        SystemKind::Loco,
                        self.config.base_kind,
                        self.config.moving_kind,
                    ),
                },
            ),
        );
        self.results.push(result);
        if self.results.len() < self.config.num_points {
            self.phase = RunPhase::AwaitBase;
            push_ask_base(actions, &self.config, self.results.len() + 1);
        } else {
            self.phase = RunPhase::Done;
            actions.push(RunAction::RestoreSources);
        }
    }
}

/// A run over a series of events, each with whether the run has been stopped by
/// then: where it ends up, and all that was to be done.
pub open spec fn run_over<T>(state: RunState<T>, events: Seq<(RunEvent<T>, bool)>) -> (
    RunState<T>,
    Seq<RunAction<T>>,
)
    decreases events.len(),
{
    if events.len() == 0 {
        (state, seq![])
    } else {
        let (next, actions) = state.step(events[0].0, events[0].1);
        let (last, more) = run_over(next, events.drop_first());
        (last, actions + more)
    }
}

/// How often the estimator sources are restored.
pub open spec fn restores<T>(actions: Seq<RunAction<T>>) -> nat
    decreases actions.len(),
{
    if actions.len() == 0 {
        0
    } else {
        restores(actions.drop_last()) + (if actions.last() is RestoreSources {
            1nat
        } else {
            0nat
        })
    }
}

proof fn lemma_restores_sum<T>(a: Seq<RunAction<T>>, b: Seq<RunAction<T>>)
    ensures
        restores(a + b) == restores(a) + restores(b),
    decreases b.len(),
{
    if b.len() == 0 {
        assert(a + b =~= a);
    } else {
        lemma_restores_sum(a, b.drop_last());
        assert((a + b).drop_last() =~= a + b.drop_last());
    }
}

proof fn lemma_no_restores<T>(a: Seq<RunAction<T>>)
    requires
        forall|i: int| 0 <= i < a.len() ==> !(#[trigger] a[i] is RestoreSources),
    ensures
        restores(a) == 0,
    decreases a.len(),
{
    if a.len() > 0 {
        lemma_no_restores(a.drop_last());
    }
}

/// Actions of which exactly the last restores the sources restore them once.
proof fn lemma_restores_last<T>(a: Seq<RunAction<T>>)
    requires
        a.len() > 0,
        a.last() is RestoreSources,
        forall|i: int| 0 <= i < a.len() - 1 ==> !(#[trigger] a[i] is RestoreSources),
    ensures
        restores(a) == 1,
{
    let front = a.drop_last();
    assert forall|i: int| 0 <= i < front.len() implies !(#[trigger] front[i] is RestoreSources) by {
        assert(front[i] == a[i]);
    }
    lemma_no_restores(front);
}

proof fn lemma_step_restores<T>(state: RunState<T>, event: RunEvent<T>, stop: bool)
    ensures
        restores(state.step(event, stop).1) == (if !(state.phase is Done) && state.step(
            event,
            stop,
        ).0.phase is Done {
            1nat
        } else {
            0nat
        }),
{
    let actions = state.step(event, stop).1;
    if !(state.phase is Done) && state.step(event, stop).0.phase is Done {
        lemma_restores_last(actions);
    } else {
        lemma_no_restores(actions);
    }
}

proof fn lemma_run_restores<T>(state: RunState<T>, events: Seq<(RunEvent<T>, bool)>)
    ensures
        restores(run_over(state, events).1) == (if !(state.phase is Done) && run_over(
            state,
            events,
        ).0.phase is Done {
            1nat
        } else {
            0nat
        }),
        state.phase is Done ==> run_over(state, events).0.phase is Done,
    decreases events.len(),
{
    if events.len() > 0 {
        let (next, actions) = state.step(events[0].0, events[0].1);
        lemma_step_restores(state, events[0].0, events[0].1);
        lemma_run_restores(next, events.drop_first());
        lemma_restores_sum(actions, run_over(next, events.drop_first()).1);
    }
}

/// However a run goes, it forwards both systems to the estimator again exactly
/// once, when it ends: after its last point, on a stop or on a failed capture.
pub proof fn sources_are_restored_when_a_run_ends<T>(
    config: MeasurementConfig,
    events: Seq<(RunEvent<T>, bool)>,
)
    ensures
        ({
            let (first, begun) = RunState::<T>::start(config);
            let (last, done) = run_over(first, events);
            restores(begun + done) == (if last.phase is Done {
                1nat
            } else {
                0nat
            })
        }),
{
    let (first, begun) = RunState::<T>::start(config);
    lemma_run_restores(first, events);
    lemma_restores_sum(begun, run_over(first, events).1);
    if first.phase is Done {
        lemma_restores_last(begun);
    } else {
        lemma_no_restores(begun);
    }
}

/// However a run goes, its points are numbered in order, and there are no more
/// than are wanted.
pub proof fn points_are_measured_in_order<T>(
    config: MeasurementConfig,
    events: Seq<(RunEvent<T>, bool)>,
)
    ensures
        run_over(RunState::<T>::start(config).0, events).0.wf(),
{
    lemma_run_wf(RunState::<T>::start(config).0, events);
}

proof fn lemma_run_wf<T>(state: RunState<T>, events: Seq<(RunEvent<T>, bool)>)
    requires
        state.wf(),
    ensures
        run_over(state, events).0.wf(),
    decreases events.len(),
{
    if events.len() > 0 {
        lemma_step_wf(state, events[0].0, events[0].1);
        lemma_run_wf(state.step(events[0].0, events[0].1).0, events.drop_first());
    }
}

proof fn lemma_step_wf<T>(state: RunState<T>, event: RunEvent<T>, stop: bool)
    requires
        state.wf(),
    ensures
        state.step(event, stop).0.wf(),
{
}

/// A point once measured stays as it is.
pub proof fn measured_points_are_kept<T>(state: RunState<T>, events: Seq<(RunEvent<T>, bool)>)
    ensures
        state.results.is_prefix_of(run_over(state, events).0.results),
    decreases events.len(),
{
    if events.len() > 0 {
        let next = state.step(events[0].0, events[0].1).0;
        measured_points_are_kept(next, events.drop_first());
        let last = run_over(state, events).0.results;
        assert(state.results =~= next.results.subrange(0, state.results.len() as int));
        assert(state.results =~= last.subrange(0, state.results.len() as int));
    } else {
        assert(state.results =~= state.results.subrange(0, state.results.len() as int));
    }
}

/// A stop, a failed capture and the end of the user's words record no point: a
/// point of which only the base was captured is dropped.
pub proof fn ending_early_records_nothing<T>(state: RunState<T>, event: RunEvent<T>, stop: bool)
    requires
        stop || event is Closed || event is CaptureFailed,
    ensures
        state.step(event, stop).0.results == state.results,
{
}

/// Whether a phase waits for an event.
pub open spec fn waits_for<T>(phase: RunPhase<T>, event: RunEvent<T>) -> bool {
    match phase {
        RunPhase::AwaitBase => event is Proceed || event is Closed,
        RunPhase::CaptureBase => event is Captured || event is CaptureFailed,
        RunPhase::AwaitMoving(_) => event is Proceed || event is Closed,
        RunPhase::CaptureMoving(_) => event is Captured || event is CaptureFailed,
        RunPhase::Done => false,
    }
}

/// A run that has been stopped ends with the next event it waits for, whatever
/// that is.
pub proof fn a_stop_ends_the_run<T>(state: RunState<T>, event: RunEvent<T>)
    requires
        waits_for(state.phase, event),
    ensures
        state.step(event, true).0.phase is Done,
        state.step(event, true).0.results == state.results,
{
}

/// The events of an undisturbed run over the points from `from` on.
pub open spec fn undisturbed<T>(
    bases: Seq<PositionStats<T>>,
    movings: Seq<PositionStats<T>>,
    from: int,
) -> Seq<(RunEvent<T>, bool)>
    decreases bases.len() - from,
{
    if from >= bases.len() {
        seq![]
    } else {
        seq![
            (RunEvent::Proceed, false),
            (RunEvent::Captured(bases[from]), false),
            (RunEvent::Proceed, false),
            (RunEvent::Captured(movings[from]), false),
        ] + undisturbed(bases, movings, from + 1)
    }
}

/// A run that nothing disturbs captures the base and then the moving system at
/// every point, records both, and ends.
pub proof fn undisturbed_run_measures_every_point<T>(
    config: MeasurementConfig,
    bases: Seq<PositionStats<T>>,
    movings: Seq<PositionStats<T>>,
)
    requires
        bases.len() == config.num_points,
        movings.len() == config.num_points,
    ensures
        ({
            let last = run_over(
                RunState::<T>::start(config).0,
                undisturbed(bases, movings, 0),
            ).0;
            &&& last.phase is Done
            &&& last.results == Seq::new(
                config.num_points as nat,
                |i: int|
                    PointResult { point_index: i as usize, base: bases[i], moving: movings[i] },
            )
        }),
{
    let first = RunState::<T>::start(config).0;
    assert(first.results =~= point_results(bases, movings, 0));
    lemma_undisturbed_from(first, bases, movings, 0);
    assert(point_results(bases, movings, bases.len()) =~= Seq::new(
        config.num_points as nat,
        |i: int| PointResult { point_index: i as usize, base: bases[i], moving: movings[i] },
    ));
}

/// The results of the first `n` points.
spec fn point_results<T>(
    bases: Seq<PositionStats<T>>,
    movings: Seq<PositionStats<T>>,
    n: nat,
) -> Seq<PointResult<T>> {
    Seq::new(
        n,
        |i: int| PointResult { point_index: i as usize, base: bases[i], moving: movings[i] },
    )
}

proof fn lemma_undisturbed_from<T>(
    state: RunState<T>,
    bases: Seq<PositionStats<T>>,
    movings: Seq<PositionStats<T>>,
    from: nat,
)
    requires
        bases.len() == state.config.num_points,
        movings.len() == state.config.num_points,
        from <= bases.len(),
        state.results == point_results(bases, movings, from),
        from < bases.len() ==> state.phase is AwaitBase,
        from == bases.len() ==> state.phase is Done,
    ensures
        run_over(state, undisturbed(bases, movings, from as int)).0.phase is Done,
        run_over(state, undisturbed(bases, movings, from as int)).0.results == point_results(
            bases,
            movings,
            bases.len(),
        ),
    decreases bases.len() - from,
{
    if from < bases.len() {
        let i: int = from as int;
        let e = undisturbed(bases, movings, i);
        let rest = undisturbed(bases, movings, i + 1);
        let s1 = state.step(RunEvent::Proceed, false).0;
        let s2 = s1.step(RunEvent::Captured(bases[i]), false).0;
        let s3 = s2.step(RunEvent::Proceed, false).0;
        let s4 = s3.step(RunEvent::Captured(movings[i]), false).0;
        let e1 = e.drop_first();
        let e2 = e1.drop_first();
        let e3 = e2.drop_first();
        let e4 = e3.drop_first();
        assert(e[0] == (RunEvent::<T>::Proceed, false));
        assert(e1[0] == (RunEvent::Captured(bases[i]), false));
        assert(e2[0] == (RunEvent::<T>::Proceed, false));
        assert(e3[0] == (RunEvent::Captured(movings[i]), false));
        assert(e4 =~= rest);
        assert(run_over(state, e).0 == run_over(s1, e1).0);
        assert(run_over(s1, e1).0 == run_over(s2, e2).0);
        assert(run_over(s2, e2).0 == run_over(s3, e3).0);
        assert(run_over(s3, e3).0 == run_over(s4, e4).0);
        assert(s4.results =~= point_results(bases, movings, from + 1));
        lemma_undisturbed_from(s4, bases, movings, from + 1);
    }
}

/// The system that plays a role in a configuration.
pub open spec fn system_in(config: MeasurementConfig, role: Role) -> SystemKind {
    if role is Base {
        config.base_kind
    } else {
        config.moving_kind
    }
}

/// The other role.
pub open spec fn other_role(role: Role) -> Role {
    if role is Base {
        Role::Moving
    } else {
        Role::Base
    }
}

/// An action is one that a run with this configuration may ask for: a capture is
/// of the system that plays the role, an instruction tells of that system, of the
/// other one and of the points wanted, and asks to place the Crazyflie exactly
/// for the base, and a row shows for each system the deviation of a role that it
/// played.
pub open spec fn fits<T>(config: MeasurementConfig, action: RunAction<T>) -> bool {
    match action {
        RunAction::Capture(kind, role) => kind == system_in(config, role),
        RunAction::Ui(
            UiUpdate::Status(
                Text::Instruction { role, kind, other_kind, point_n, total, is_first_step },
            ),
        ) => {
            &&& kind == system_in(config, role)
            &&& other_kind == system_in(config, other_role(role))
            &&& 1 <= point_n <= config.num_points
            &&& total == config.num_points
            &&& is_first_step == (role is Base)
        },
        RunAction::AppendRow(row) => {
            &&& match row.lh_std {
                Some(role) => system_in(config, role) == SystemKind::Lighthouse,
                None => config.base_kind == SystemKind::Loco && config.moving_kind
                    == SystemKind::Loco,
            }
            &&& match row.loco_std {
                Some(role) => system_in(config, role) == SystemKind::Loco,
                None => config.base_kind == SystemKind::Lighthouse && config.moving_kind
                    == SystemKind::Lighthouse,
            }
        },
        _ => true,
    }
}

proof fn lemma_step_fits<T>(state: RunState<T>, event: RunEvent<T>, stop: bool, i: int)
    requires
        state.wf(),
        0 <= i < state.step(event, stop).1.len(),
    ensures
        state.step(event, stop).0.config == state.config,
        fits(state.config, state.step(event, stop).1[i]),
{
}

/// Whatever event a run takes, it keeps its configuration, and every capture that
/// it asks for is of the system that the configuration gives that role.
pub proof fn captures_are_of_the_configured_systems<T: Copy>(
    run: &mut MeasurementRun<T>,
    event: RunEvent<T>,
    stop: bool,
    r: Vec<RunAction<T>>,
    i: int,
)
    requires
        old(run)@.wf(),
        call_ensures(MeasurementRun::<T>::handle, (run, event, stop), r),
        0 <= i < r@.len(),
    ensures
        final(run).config == old(run).config,
        r@[i] matches RunAction::Capture(kind, role) ==> kind == (if role is Base {
            old(run).config.base_kind
        } else {
            old(run).config.moving_kind
        }),
        fits(old(run).config, r@[i]),
{
    lemma_step_fits(old(run)@, event, stop, i);
}

/// Over any series of events of a run begun with a configuration, every capture
/// in the role of the base is of the configured base system and every capture in
/// the role of the moving one is of the configured moving system; instructions
/// and rows tell of these systems too.
pub proof fn every_capture_is_of_the_configured_system<T: Copy>(
    config: MeasurementConfig,
    begun: (MeasurementRun<T>, Vec<RunAction<T>>),
    events: Seq<(RunEvent<T>, bool)>,
    i: int,
)
    requires
        call_ensures(MeasurementRun::<T>::start, (config,), begun),
        0 <= i < (begun.1@ + run_over(begun.0@, events).1).len(),
    ensures
        (begun.1@ + run_over(begun.0@, events).1)[i] matches RunAction::Capture(kind, role) ==> kind
            == (if role is Base {
            config.base_kind
        } else {
            config.moving_kind
        }),
        fits(config, (begun.1@ + run_over(begun.0@, events).1)[i]),
{
    if i >= begun.1@.len() {
        lemma_over_fits(begun.0@, events, i - begun.1@.len());
    }
}

proof fn lemma_over_fits<T>(state: RunState<T>, events: Seq<(RunEvent<T>, bool)>, i: int)
    requires
        state.wf(),
        0 <= i < run_over(state, events).1.len(),
    ensures
        fits(state.config, run_over(state, events).1[i]),
    decreases events.len(),
{
    if events.len() > 0 {
        let (next, actions) = state.step(events[0].0, events[0].1);
        lemma_step_wf(state, events[0].0, events[0].1);
        if i < actions.len() {
            lemma_step_fits(state, events[0].0, events[0].1, i);
        } else {
            assert(next.config == state.config);
            lemma_over_fits(next, events.drop_first(), i - actions.len());
        }
    }
}

/// The captures among some actions, in order.
pub open spec fn captures<T>(actions: Seq<RunAction<T>>) -> Seq<(SystemKind, Role)>
    decreases actions.len(),
{
    if actions.len() == 0 {
        seq![]
    } else {
        match actions.last() {
            RunAction::Capture(kind, role) => captures(actions.drop_last()).push((kind, role)),
            _ => captures(actions.drop_last()),
        }
    }
}

proof fn lemma_captures_sum<T>(a: Seq<RunAction<T>>, b: Seq<RunAction<T>>)
    ensures
        captures(a + b) == captures(a) + captures(b),
    decreases b.len(),
{
    if b.len() == 0 {
        assert(a + b =~= a);
        assert(captures(a) + captures(b) =~= captures(a));
    } else {
        lemma_captures_sum(a, b.drop_last());
        assert((a + b).drop_last() =~= a + b.drop_last());
        assert(captures(a + b) =~= captures(a) + captures(b));
    }
}

proof fn lemma_no_captures<T>(a: Seq<RunAction<T>>)
    requires
        forall|i: int| 0 <= i < a.len() ==> !(#[trigger] a[i] is Capture),
    ensures
        captures(a) == Seq::<(SystemKind, Role)>::empty(),
    decreases a.len(),
{
    if a.len() > 0 {
        lemma_no_captures(a.drop_last());
    }
}

proof fn lemma_one_capture<T>(a: Seq<RunAction<T>>, kind: SystemKind, role: Role)
    requires
        a == seq![RunAction::<T>::Capture(kind, role)],
    ensures
        captures(a) == seq![(kind, role)],
{
    assert(a.drop_last() =~= Seq::<RunAction<T>>::empty());
    assert(captures(a.drop_last()) =~= Seq::<(SystemKind, Role)>::empty());
    assert(captures(a) =~= seq![(kind, role)]);
}

/// The captures of `n` points: at each the base system, then the moving one.
pub open spec fn captures_of_points(config: MeasurementConfig, n: nat) -> Seq<(SystemKind, Role)> {
    Seq::new(
        2 * n,
        |i: int|
            if i % 2 == 0 {
                (config.base_kind, Role::Base)
            } else {
                (config.moving_kind, Role::Moving)
            },
    )
}

/// A run that nothing disturbs asks at every point for exactly two captures, of
/// the configured base system and then of the configured moving system.
pub proof fn undisturbed_run_captures_base_and_moving<T: Copy>(
    config: MeasurementConfig,
    begun: (MeasurementRun<T>, Vec<RunAction<T>>),
    bases: Seq<PositionStats<T>>,
    movings: Seq<PositionStats<T>>,
)
    requires
        bases.len() == config.num_points,
        movings.len() == config.num_points,
        call_ensures(MeasurementRun::<T>::start, (config,), begun),
    ensures
        captures(begun.1@ + run_over(begun.0@, undisturbed(bases, movings, 0)).1) == Seq::new(
            2 * config.num_points as nat,
            |i: int|
                if i % 2 == 0 {
                    (config.base_kind, Role::Base)
                } else {
                    (config.moving_kind, Role::Moving)
                },
        ),
{
    let first = begun.0@;
    lemma_no_captures(begun.1@);
    lemma_captures_sum(begun.1@, run_over(first, undisturbed(bases, movings, 0)).1);
    lemma_undisturbed_captures(first, bases, movings, 0);
    let all = captures(begun.1@ + run_over(first, undisturbed(bases, movings, 0)).1);
    assert(all =~= captures_of_points(config, config.num_points as nat));
}

proof fn lemma_undisturbed_captures<T>(
    state: RunState<T>,
    bases: Seq<PositionStats<T>>,
    movings: Seq<PositionStats<T>>,
    from: nat,
)
    requires
        bases.len() == state.config.num_points,
        movings.len() == state.config.num_points,
        from <= bases.len(),
        state.results.len() == from,
        from < bases.len() ==> state.phase is AwaitBase,
        from == bases.len() ==> state.phase is Done,
    ensures
        captures(run_over(state, undisturbed(bases, movings, from as int)).1)
            == captures_of_points(state.config, (bases.len() - from) as nat),
    decreases bases.len() - from,
{
    let i: int = from as int;
    let config = state.config;
    let e = undisturbed(bases, movings, i);
    if from < bases.len() {
        let rest = undisturbed(bases, movings, i + 1);
        let (s1, a1) = state.step(RunEvent::Proceed, false);
        let (s2, a2) = s1.step(RunEvent::Captured(bases[i]), false);
        let (s3, a3) = s2.step(RunEvent::Proceed, false);
        let (s4, a4) = s3.step(RunEvent::Captured(movings[i]), false);
        let e1 = e.drop_first();
        let e2 = e1.drop_first();
        let e3 = e2.drop_first();
        let e4 = e3.drop_first();
        assert(e[0] == (RunEvent::<T>::Proceed, false));
        assert(e1[0] == (RunEvent::Captured(bases[i]), false));
        assert(e2[0] == (RunEvent::<T>::Proceed, false));
        assert(e3[0] == (RunEvent::Captured(movings[i]), false));
        assert(e4 =~= rest);
        let r4 = run_over(s4, e4).1;
        let r3 = run_over(s3, e3).1;
        let r2 = run_over(s2, e2).1;
        let r1 = run_over(s1, e1).1;
        assert(r3 == a4 + r4);
        assert(r2 == a3 + r3);
        assert(r1 == a2 + r2);
        assert(run_over(state, e).1 == a1 + r1);
        lemma_one_capture(a1, config.base_kind, Role::Base);
        lemma_no_captures(a2);
        lemma_one_capture(a3, config.moving_kind, Role::Moving);
        lemma_no_captures(a4);
        lemma_captures_sum(a4, r4);
        lemma_captures_sum(a3, r3);
        lemma_captures_sum(a2, r2);
        lemma_captures_sum(a1, r1);
        lemma_undisturbed_captures(s4, bases, movings, from + 1);
        let more = captures_of_points(config, (bases.len() - from - 1) as nat);
        assert(captures(run_over(state, e).1) =~= seq![(config.base_kind, Role::Base)] + seq![
            (config.moving_kind, Role::Moving),
        ] + more);
        assert(captures(run_over(state, e).1) =~= captures_of_points(
            config,
            (bases.len() - from) as nat,
        ));
    } else {
        assert(run_over(state, e).1 =~= Seq::<RunAction<T>>::empty());
        assert(captures(run_over(state, e).1) =~= captures_of_points(config, 0));
    }
}

/// The role that a run waiting for the user's word is about to capture.
pub open spec fn asked_role<T>(phase: RunPhase<T>) -> Option<Role> {
    match phase {
        RunPhase::AwaitBase => Some(Role::Base),
        RunPhase::AwaitMoving(_) => Some(Role::Moving),
        _ => None,
    }
}

/// What the user is told before a capture is what is captured next: the button
/// and the instruction name the role, the instruction and the counter name the
/// point after those measured, and the user's word then starts the capture in
/// that role.
pub proof fn user_is_told_of_the_next_capture<T: Copy>(
    run: &mut MeasurementRun<T>,
    event: RunEvent<T>,
    stop: bool,
    r: Vec<RunAction<T>>,
    i: int,
)
    requires
        old(run)@.wf(),
        call_ensures(MeasurementRun::<T>::handle, (run, event, stop), r),
        0 <= i < r@.len(),
    ensures
        r@[i] matches RunAction::Ui(UiUpdate::CaptureButtonLabel(label)) ==> exists|role: Role|
            label == Text::CaptureButton(role) && #[trigger] final(run)@.step(
                RunEvent::Proceed,
                false,
            ).1.contains(RunAction::Capture(system_in(old(run).config, role), role)),
        r@[i] matches RunAction::Ui(UiUpdate::Status(Text::Instruction { role, point_n, .. })) ==> {
            &&& point_n == final(run).results@.len() + 1
            &&& final(run)@.step(RunEvent::Proceed, false).1.contains(
                RunAction::Capture(system_in(old(run).config, role), role),
            )
        },
        r@[i] matches RunAction::Ui(UiUpdate::CurrentPoint(n)) ==> n == (final(run).results@.len()
            + 1) as i32,
        r@[i] matches RunAction::Ui(UiUpdate::TotalPointsDisplay(n)) ==> n
            == old(run).config.num_points as i32,
        r@[i] is AwaitCapture ==> i == r@.len() - 1 && asked_role(final(run).phase) is Some,
{
    let after = final(run)@;
    let next = after.step(RunEvent::Proceed, false).1;
    if asked_role(after.phase) is Some {
        let role = asked_role(after.phase).unwrap();
        assert(next[0] == RunAction::<T>::Capture(system_in(old(run).config, role), role));
        assert(next.contains(RunAction::Capture(system_in(old(run).config, role), role)));
    }
}

/// A run that waits for the user says so: what it asks for ends with waiting, and
/// shows the instruction and the button.
pub proof fn waiting_is_announced<T: Copy>(
    run: &mut MeasurementRun<T>,
    event: RunEvent<T>,
    stop: bool,
    r: Vec<RunAction<T>>,
)
    requires
        old(run)@.wf(),
        waits_for(old(run).phase, event),
        call_ensures(MeasurementRun::<T>::handle, (run, event, stop), r),
        asked_role(final(run).phase) is Some,
    ensures
        r@.len() > 0,
        r@.last() is AwaitCapture,
        r@.contains(RunAction::Ui(UiUpdate::IsWaitingForCapture(true))),
        r@.contains(RunAction::Ui(UiUpdate::IsMeasuring(false))),
        exists|i: int|
            0 <= i < r@.len() && (#[trigger] r@[i]) matches RunAction::Ui(
                UiUpdate::Status(Text::Instruction { .. }),
            ),
        exists|i: int|
            0 <= i < r@.len() && (#[trigger] r@[i]) matches RunAction::Ui(
                UiUpdate::CaptureButtonLabel(_),
            ),
{
    let k: int = if final(run).phase is AwaitBase {
        1
    } else {
        0
    };
    assert(r@[k] == RunAction::<T>::Ui(UiUpdate::IsWaitingForCapture(true)));
    assert(r@[k + 1] == RunAction::<T>::Ui(UiUpdate::IsMeasuring(false)));
    assert(r@[r@.len() - 2] matches RunAction::Ui(UiUpdate::Status(Text::Instruction { .. })));
    assert(r@[r@.len() - 3] matches RunAction::Ui(UiUpdate::CaptureButtonLabel(_)));
}

/// A point is recorded exactly when its moving system was captured in a run that
/// was not stopped: it is added last, numbered on, with what was captured of
/// each system, and the table gets its row.
pub proof fn point_is_recorded_with_its_row<T: Copy>(
    run: &mut MeasurementRun<T>,
    event: RunEvent<T>,
    stop: bool,
    r: Vec<RunAction<T>>,
)
    requires
        old(run)@.wf(),
        call_ensures(MeasurementRun::<T>::handle, (run, event, stop), r),
    ensures
        (old(run).phase matches RunPhase::CaptureMoving(base) && event matches RunEvent::Captured(
            moving,
        ) && !stop) ==> {
            let n = old(run).results@.len();
            let base = old(run).phase->CaptureMoving_0;
            let moving = event->Captured_0;
            &&& final(run).results@ == old(run).results@.push(
                PointResult { point_index: n as usize, base, moving },
            )
            &&& r@.len() > 0
            &&& r@[0] matches RunAction::AppendRow(row) && row.result == final(run).results@.last()
                && row.point == (n + 1) as i32
        },
        !(old(run).phase is CaptureMoving && event is Captured && !stop) ==> final(run).results@
            == old(run).results@ && forall|i: int|
            0 <= i < r@.len() ==> !(#[trigger] r@[i] is AppendRow),
{
}

/// What was captured of the base is kept until the moving system is captured.
pub proof fn captured_base_is_kept<T: Copy>(
    run: &mut MeasurementRun<T>,
    event: RunEvent<T>,
    stop: bool,
    r: Vec<RunAction<T>>,
)
    requires
        old(run)@.wf(),
        call_ensures(MeasurementRun::<T>::handle, (run, event, stop), r),
    ensures
        old(run).phase is CaptureBase && event is Captured && !stop ==> final(run).phase
            == RunPhase::AwaitMoving(event->Captured_0),
        old(run).phase is AwaitMoving && event is Proceed && !stop ==> final(run).phase
            == RunPhase::CaptureMoving(old(run).phase->AwaitMoving_0),
{
}

/// A capture that fails is reported in the role that was captured, the run is
/// shown as not running, and it ends.
pub proof fn failed_capture_is_reported_in_its_role<T: Copy>(
    run: &mut MeasurementRun<T>,
    stop: bool,
    r: Vec<RunAction<T>>,
)
    requires
        old(run)@.wf(),
        old(run).phase is CaptureBase || old(run).phase is CaptureMoving,
        call_ensures(MeasurementRun::<T>::handle, (run, RunEvent::CaptureFailed, stop), r),
    ensures
        final(run).phase is Done,
        r@.contains(
            RunAction::Ui(
                UiUpdate::Error(
                    Text::CaptureFailed(
                        if old(run).phase is CaptureBase {
                            Role::Base
                        } else {
                            Role::Moving
                        },
                    ),
                ),
            ),
        ),
        r@.contains(RunAction::Ui(UiUpdate::IsRunning(false))),
        r@.contains(RunAction::RestoreSources),
{
    assert(r@[0] is Ui);
    assert(r@[1] == RunAction::<T>::Ui(UiUpdate::IsRunning(false)));
    assert(r@[2] == RunAction::<T>::RestoreSources);
    let role = if old(run).phase is CaptureBase {
        Role::Base
    } else {
        Role::Moving
    };
    assert(r@[0] == RunAction::<T>::Ui(UiUpdate::Error(Text::CaptureFailed(role))));
}

/// A run begins with its first point, unless none is wanted.
pub proof fn run_begins_with_the_first_point<T: Copy>(
    config: MeasurementConfig,
    begun: (MeasurementRun<T>, Vec<RunAction<T>>),
)
    requires
        call_ensures(MeasurementRun::<T>::start, (config,), begun),
    ensures
        begun.0.config == config,
        begun.0.results@.len() == 0,
        config.num_points == 0 ==> begun.0.phase is Done,
        config.num_points > 0 ==> {
            &&& begun.0.phase is AwaitBase
            &&& begun.1@.last() is AwaitCapture
            &&& begun.1@.contains(RunAction::Ui(UiUpdate::CurrentPoint(1)))
            &&& begun.1@.contains(
                RunAction::Ui(UiUpdate::TotalPointsDisplay(config.num_points as i32)),
            )
            &&& begun.1@.contains(
                RunAction::Ui(UiUpdate::CaptureButtonLabel(Text::CaptureButton(Role::Base))),
            )
            &&& begun.1@.contains(
                RunAction::Ui(
                    UiUpdate::Status(
                        Text::Instruction {
                            role: Role::Base,
                            kind: config.base_kind,
                            other_kind: config.moving_kind,
                            point_n: 1,
                            total: config.num_points,
                            is_first_step: true,
                        },
                    ),
                ),
            )
        },
{
    if config.num_points > 0 {
        assert(begun.1@[3] == RunAction::<T>::Ui(UiUpdate::CurrentPoint(1)));
        assert(begun.1@[4] == RunAction::<T>::Ui(
            UiUpdate::TotalPointsDisplay(config.num_points as i32),
        ));
        assert(begun.1@[5] == RunAction::<T>::Ui(
            UiUpdate::CaptureButtonLabel(Text::CaptureButton(Role::Base)),
        ));
        assert(begun.1@[6] matches RunAction::Ui(UiUpdate::Status(Text::Instruction { .. })));
    }
}

/// A run that is done does nothing more, whatever comes; one that is not still
/// waits for something.
pub proof fn done_run_does_nothing<T: Copy>(
    run: &MeasurementRun<T>,
    done: bool,
    event: RunEvent<T>,
    stop: bool,
)
    requires
        call_ensures(MeasurementRun::<T>::is_done, (run,), done),
    ensures
        done ==> run@.step(event, stop) == (run@, Seq::<RunAction<T>>::empty()),
        !done ==> exists|e: RunEvent<T>| #[trigger] waits_for(run@.phase, e),
{
    if !done {
        if asked_role(run@.phase) is Some {
            assert(waits_for(run@.phase, RunEvent::<T>::Closed));
        } else {
            assert(waits_for(run@.phase, RunEvent::<T>::CaptureFailed));
        }
    }
}

/// An event that a run does not wait for changes nothing.
pub proof fn events_out_of_turn_change_nothing<T: Copy>(
    run: &mut MeasurementRun<T>,
    event: RunEvent<T>,
    stop: bool,
    r: Vec<RunAction<T>>,
)
    requires
        old(run)@.wf(),
        !waits_for(old(run).phase, event),
        call_ensures(MeasurementRun::<T>::handle, (run, event, stop), r),
    ensures
        final(run)@ == old(run)@,
        r@.len() == 0,
{
}

/// A run that can be asked for no more captures ends, as one that was stopped
/// does, with the sources restored and nothing else.
pub proof fn closing_and_stopping_end_the_run<T: Copy>(
    run: &mut MeasurementRun<T>,
    event: RunEvent<T>,
    stop: bool,
    r: Vec<RunAction<T>>,
)
    requires
        old(run)@.wf(),
        waits_for(old(run).phase, event),
        event is Closed || (stop && !(event is CaptureFailed)),
        call_ensures(MeasurementRun::<T>::handle, (run, event, stop), r),
    ensures
        final(run).phase is Done,
        final(run).results@ == old(run).results@,
        r@ == seq![RunAction::<T>::RestoreSources],
{
}

} // verus!
