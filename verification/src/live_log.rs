//! Streaming the position log of a connected Crazyflie.
use crate::live::{
    deviates_like_a_capture, fresh, is_live_std, lemma_window_deviates, lists_window, live_std,
    push_drops_stale_samples_only, push_live_sample, without_stale, LiveSample, LiveState,
};
use crate::scalar::{exact, exact_roots, is_zero, total, Scalar};
use crate::stats::{is_deviation, XyzValue};
use crate::ui::{Text, UiUpdate};
use crazyflie_lib::subsystems::log::LogPeriod;
use vstd::prelude::*;

verus! {

/// `crazyflie_lib`'s log period, opaque here.
#[verifier::external_type_specification]
#[verifier::external_body]
pub struct ExLogPeriod(LogPeriod);

/// `crazyflie_lib`'s error, opaque here.
#[verifier::external_type_specification]
#[verifier::external_body]
pub struct ExError(crazyflie_lib::Error);

/// The log period, in units of ten milliseconds, that a `LogPeriod` holds.
pub uninterp spec fn log_period_ticks(period: LogPeriod) -> int;

/// `LogPeriod::from_millis`: the period in whole units of ten milliseconds; it
/// fails unless that number is from 1 to 255.
#[verifier::external_body]
fn log_period_from_millis(millis: u64) -> (r: Result<LogPeriod, crazyflie_lib::Error>)
    ensures
        r is Ok <==> 1 <= millis / 10 <= 255,
        match r {
            Ok(period) => log_period_ticks(period) == millis / 10,
            Err(_) => true,
        },
{
    LogPeriod::from_millis(millis)
}

/// The log period is not one that a Crazyflie can keep.
#[derive(Debug)]
pub struct InvalidLogPeriod(pub crazyflie_lib::Error);

/// The period of the live position log: valid from 10 ms to just below 2560 ms,
/// and rounded down to a multiple of 10 ms.
pub fn live_log_period(millis: u64) -> (r: Result<LogPeriod, InvalidLogPeriod>)
    ensures
        r is Ok <==> 10 <= millis < 2560,
        match r {
            Ok(period) => log_period_ticks(period) == millis / 10,
            Err(_) => true,
        },
{
    match log_period_from_millis(millis) {
        Ok(period) => Ok(period),
        Err(e) => Err(InvalidLogPeriod(e)),
    }
}

/// A coordinate axis.
#[derive(Clone, Copy, Debug, PartialEq, Eq, Structural)]
pub enum Axis {
    X,
    Y,
    Z,
}

impl Axis {
    pub open spec fn spec_log_variable(self) -> Seq<char> {
        match self {
            Axis::X => "stateEstimate.x"@,
            Axis::Y => "stateEstimate.y"@,
            Axis::Z => "stateEstimate.z"@,
        }
    }

    /// The log variable that holds the position along this axis.
    pub fn log_variable(self) -> (r: &'static str)
        ensures
            r@ == self.spec_log_variable(),
    {
        match self {
            Axis::X => "stateEstimate.x",
            Axis::Y => "stateEstimate.y",
            Axis::Z => "stateEstimate.z",
        }
    }
}

/// What live logging waits for.
#[derive(Clone, Copy, Debug, PartialEq, Eq, Structural)]
pub enum LogPhase {
    /// That the log block is created.
    Creating,
    /// That the log block is filled and started.
    Starting,
    /// The next packet.
    Streaming,
    /// Nothing more.
    Ended,
}

/// What is to be done.
#[derive(Clone, Copy, Debug, PartialEq, Eq, Structural)]
pub enum LogAction {
    Ui(UiUpdate),
    CreateBlock,
    AddVariable(Axis),
    /// Start the log block with this period in milliseconds.
    StartBlock(u64),
    NextPacket,
    /// Hand the position of the packet on: to a run that collects samples, to
    /// the live window and to the readouts.
    Publish,
}

/// Live logging with a period in milliseconds.
#[derive(Clone, Copy, Debug, PartialEq, Eq, Structural)]
pub struct LiveLogging {
    pub period_ms: u64,
    pub phase: LogPhase,
}

impl LiveLogging {
    /// What follows the work of the phase; `ok` tells whether it succeeded.
    pub open spec fn step(self, ok: bool) -> (LiveLogging, Seq<LogAction>) {
        let enter = |phase: LogPhase| LiveLogging { phase, ..self };
        match self.phase {
            LogPhase::Creating => if ok {
                (
                    enter(LogPhase::Starting),
                    seq![
                        LogAction::AddVariable(Axis::X),
                        LogAction::AddVariable(Axis::Y),
                        LogAction::AddVariable(Axis::Z),
                        LogAction::StartBlock(self.period_ms),
                    ],
                )
            } else {
                (
                    enter(LogPhase::Ended),
                    seq![LogAction::Ui(UiUpdate::Error(Text::LiveLoggingFailed))],
                )
            },
            LogPhase::Starting => if ok {
                (enter(LogPhase::Streaming), seq![LogAction::NextPacket])
            } else {
                (
                    enter(LogPhase::Ended),
                    seq![LogAction::Ui(UiUpdate::Error(Text::LiveLoggingFailed))],
                )
            },
            LogPhase::Streaming => if ok {
                (self, seq![LogAction::Publish, LogAction::NextPacket])
            } else {
                (enter(LogPhase::Ended), seq![])
            },
            LogPhase::Ended => (self, seq![]),
        }
    }

    /// Begins live logging, and says what is to be done.
    pub fn start(period_ms: u64) -> (r: (Self, Vec<LogAction>))
        ensures
            r.0 == (LiveLogging { period_ms, phase: LogPhase::Creating }),
            r.1@ == seq![LogAction::CreateBlock],
    {
        let mut actions: Vec<LogAction> = Vec::new();
        actions.push(LogAction::CreateBlock);
        (LiveLogging { period_ms, phase: LogPhase::Creating }, actions)
    }

    /// Takes the outcome of the phase's work, and says what is to be done.
    pub fn handle(&mut self, ok: bool) -> (r: Vec<LogAction>)
        ensures
            (*final(self), r@) == old(self).step(ok),
    {
        let mut actions: Vec<LogAction> = Vec::new();
        match self.phase {
            LogPhase::Creating => {
                if ok {
                    self.phase = LogPhase::Starting;
                    actions.push(LogAction::AddVariable(Axis::X));
                    actions.push(LogAction::AddVariable(Axis::Y));
                    actions.push(LogAction::AddVariable(Axis::Z));
                    actions.push(LogAction::StartBlock(self.period_ms));
                } else {
                    self.phase = LogPhase::Ended;
                    actions.push(LogAction::Ui(UiUpdate::Error(Text::LiveLoggingFailed)));
                }
            },
            LogPhase::Starting => {
                if ok {
                    self.phase = LogPhase::Streaming;
                    actions.push(LogAction::NextPacket);
                } else {
                    self.phase = LogPhase::Ended;
                    actions.push(LogAction::Ui(UiUpdate::Error(Text::LiveLoggingFailed)));
                }
            },
            LogPhase::Streaming => {
                if ok {
                    actions.push(LogAction::Publish);
                    actions.push(LogAction::NextPacket);
                } else {
                    self.phase = LogPhase::Ended;
                }
            },
            LogPhase::Ended => {},
        }
        actions
    }
}

/// `r` is a coordinate that a packet may lack, zero in that case.
pub open spec fn is_coordinate<T: Scalar>(coordinate: Option<T>, r: T) -> bool {
    match coordinate {
        Some(c) => r == c,
        None => is_zero(r),
    }
}

fn coordinate_or_zero<T: Scalar>(coordinate: Option<T>) -> (r: T)
    ensures
        is_coordinate(coordinate, r),
{
    match coordinate {
        Some(c) => c,
        None => T::zero(),
    }
}

/// The position that a packet holds, with zero for what it lacks.
pub fn packet_position<T: Scalar>(x: Option<T>, y: Option<T>, z: Option<T>) -> (r: (T, T, T))
    ensures
        is_coordinate(x, r.0),
        is_coordinate(y, r.1),
        is_coordinate(z, r.2),
{
    (coordinate_or_zero(x), coordinate_or_zero(y), coordinate_or_zero(z))
}

/// Puts a position received at `now` into the live window, and gives the
/// standard deviations of the window with it.
pub fn track_position<T: Scalar>(
    state: &mut LiveState<T>,
    now: u128,
    position: (T, T, T),
) -> (r: (T, T, T))
    ensures
        final(state)@ == without_stale(
            old(state)@.push(LiveSample { t: now, x: position.0, y: position.1, z: position.2 }),
            now,
        ),
        is_live_std(final(state)@, r),
        deviates_like_a_capture(final(state)@, r),
{
    push_live_sample(
        state,
        LiveSample { t: now, x: position.0, y: position.1, z: position.2 },
    );
    live_std(state)
}

/// Live logging over a series of outcomes: where it ends up, and all that was to
/// be done.
pub open spec fn logging_over(logging: LiveLogging, outcomes: Seq<bool>) -> (
    LiveLogging,
    Seq<LogAction>,
)
    decreases outcomes.len(),
{
    if outcomes.len() == 0 {
        (logging, seq![])
    } else {
        let (next, actions) = logging.step(outcomes[0]);
        let (last, more) = logging_over(next, outcomes.drop_first());
        (last, actions + more)
    }
}

/// What one outcome leads to keeps the period, and if it starts the log block, it
/// starts it with that period, after the variables of all three axes were added.
pub proof fn log_block_is_started_with_the_period(
    logging: &mut LiveLogging,
    ok: bool,
    r: Vec<LogAction>,
    i: int,
)
    requires
        call_ensures(LiveLogging::handle, (logging, ok), r),
        0 <= i < r@.len(),
    ensures
        final(logging).period_ms == old(logging).period_ms,
        r@[i] matches LogAction::StartBlock(period) ==> period == old(logging).period_ms
            && has_all_axes(r@.take(i)),
{
    lemma_start_step(*old(logging), ok, i);
}

/// The variables of all three axes are added, once each, and nothing else is
/// done.
pub open spec fn has_all_axes(actions: Seq<LogAction>) -> bool {
    &&& actions.len() == 3
    &&& actions.contains(LogAction::AddVariable(Axis::X))
    &&& actions.contains(LogAction::AddVariable(Axis::Y))
    &&& actions.contains(LogAction::AddVariable(Axis::Z))
}

proof fn lemma_start_step(logging: LiveLogging, ok: bool, i: int)
    requires
        0 <= i < logging.step(ok).1.len(),
    ensures
        logging.step(ok).0.period_ms == logging.period_ms,
        logging.step(ok).1[i] matches LogAction::StartBlock(period) ==> period
            == logging.period_ms && has_all_axes(logging.step(ok).1.take(i)),
{
    let actions = logging.step(ok).1;
    if actions[i] is StartBlock {
        let before = actions.take(i);
        assert(before.len() == 3);
        assert(exists|k: int| 0 <= k < 3 && before[k] == LogAction::AddVariable(Axis::X)) by {
            assert(before[0] == LogAction::AddVariable(Axis::X) || before[1]
                == LogAction::AddVariable(Axis::X) || before[2] == LogAction::AddVariable(Axis::X));
        }
        assert(exists|k: int| 0 <= k < 3 && before[k] == LogAction::AddVariable(Axis::Y)) by {
            assert(before[0] == LogAction::AddVariable(Axis::Y) || before[1]
                == LogAction::AddVariable(Axis::Y) || before[2] == LogAction::AddVariable(Axis::Y));
        }
        assert(exists|k: int| 0 <= k < 3 && before[k] == LogAction::AddVariable(Axis::Z)) by {
            assert(before[0] == LogAction::AddVariable(Axis::Z) || before[1]
                == LogAction::AddVariable(Axis::Z) || before[2] == LogAction::AddVariable(Axis::Z));
        }
    }
}

/// Over any series of outcomes of live logging begun with a period, every action
/// that starts the log block carries that period.
pub proof fn every_start_carries_the_period(
    period_ms: u64,
    begun: (LiveLogging, Vec<LogAction>),
    outcomes: Seq<bool>,
    i: int,
)
    requires
        call_ensures(LiveLogging::start, (period_ms,), begun),
        0 <= i < logging_over(begun.0, outcomes).1.len(),
    ensures
        logging_over(begun.0, outcomes).1[i] matches LogAction::StartBlock(period) ==> period
            == period_ms,
{
    lemma_start_over(begun.0, outcomes, i);
}

proof fn lemma_start_over(logging: LiveLogging, outcomes: Seq<bool>, i: int)
    requires
        0 <= i < logging_over(logging, outcomes).1.len(),
    ensures
        logging_over(logging, outcomes).1[i] matches LogAction::StartBlock(period) ==> period
            == logging.period_ms,
    decreases outcomes.len(),
{
    if outcomes.len() > 0 {
        let (next, actions) = logging.step(outcomes[0]);
        if i < actions.len() {
            lemma_start_step(logging, outcomes[0], i);
        } else {
            lemma_start_over(next, outcomes.drop_first(), i - actions.len());
        }
    }
}

/// A log whose block was created and started hands on the position of every
/// packet that comes, once, and waits for the next; what fails first ends it, and
/// is reported unless it is a packet that does not come.
pub proof fn every_packet_is_published(
    period_ms: u64,
    begun: (LiveLogging, Vec<LogAction>),
    packets: nat,
)
    requires
        call_ensures(LiveLogging::start, (period_ms,), begun),
    ensures
        begun.1@ == seq![LogAction::CreateBlock],
        logging_over(begun.0, seq![false]).1 == seq![
            LogAction::Ui(UiUpdate::Error(Text::LiveLoggingFailed)),
        ],
        logging_over(begun.0, seq![true, false]).1.last() == LogAction::Ui(
            UiUpdate::Error(Text::LiveLoggingFailed),
        ),
        ({
            let up = begun.0.step(true).0.step(true);
            let streamed = logging_over(up.0, Seq::new(packets, |i: int| true));
            &&& up.1 == seq![LogAction::NextPacket]
            &&& streamed.1 == Seq::new(
                2 * packets,
                |i: int|
                    if i % 2 == 0 {
                        LogAction::Publish
                    } else {
                        LogAction::NextPacket
                    },
            )
            &&& streamed.0.step(false).1 == Seq::<LogAction>::empty()
            &&& forall|later: Seq<bool>|
                #[trigger] logging_over(streamed.0.step(false).0, later).1 == Seq::<
                    LogAction,
                >::empty()
        }),
{
    let first = begun.0;
    let no = seq![false];
    assert(no.drop_first() =~= seq![]);
    assert(logging_over(first.step(false).0, no.drop_first()).1 =~= seq![]);
    assert(logging_over(first, no).1 =~= first.step(false).1);
    let yes_no = seq![true, false];
    let second = first.step(true).0;
    assert(yes_no.drop_first() =~= no);
    assert(logging_over(second.step(false).0, no.drop_first()).1 =~= seq![]);
    assert(logging_over(second, no).1 =~= second.step(false).1);
    assert(logging_over(first, yes_no).1 =~= first.step(true).1 + second.step(false).1);
    let up = second.step(true).0;
    lemma_streaming(up, packets);
    let streamed = logging_over(up, Seq::new(packets, |i: int| true));
    assert forall|later: Seq<bool>|
        #[trigger] logging_over(streamed.0.step(false).0, later).1 == Seq::<LogAction>::empty() by {
        lemma_ended_log(streamed.0.step(false).0, later);
    }
}

proof fn lemma_ended_log(logging: LiveLogging, outcomes: Seq<bool>)
    requires
        logging.phase is Ended,
    ensures
        logging_over(logging, outcomes).1 == Seq::<LogAction>::empty(),
    decreases outcomes.len(),
{
    if outcomes.len() > 0 {
        lemma_ended_log(logging, outcomes.drop_first());
    }
}

proof fn lemma_streaming(logging: LiveLogging, packets: nat)
    requires
        logging.phase is Streaming,
    ensures
        logging_over(logging, Seq::new(packets, |i: int| true)).0 == logging,
        logging_over(logging, Seq::new(packets, |i: int| true)).1 == Seq::new(
            2 * packets,
            |i: int|
                if i % 2 == 0 {
                    LogAction::Publish
                } else {
                    LogAction::NextPacket
                },
        ),
    decreases packets,
{
    let outcomes = Seq::new(packets, |i: int| true);
    let all = Seq::new(
        2 * packets,
        |i: int|
            if i % 2 == 0 {
                LogAction::Publish
            } else {
                LogAction::NextPacket
            },
    );
    if packets > 0 {
        let fewer = (packets - 1) as nat;
        lemma_streaming(logging, fewer);
        assert(outcomes[0]);
        assert(outcomes.drop_first() =~= Seq::new(fewer, |i: int| true));
        assert(logging_over(logging, outcomes).1 =~= all);
    } else {
        assert(logging_over(logging, outcomes).1 =~= all);
    }
}

/// A packet's coordinates are handed on each for its own axis; one that is
/// missing counts as zero.
pub proof fn packet_coordinates_keep_their_axes<T: Scalar>(
    value: spec_fn(T) -> real,
    x: Option<T>,
    y: Option<T>,
    z: Option<T>,
    r: (T, T, T),
)
    requires
        exact_roots(value),
        call_ensures(packet_position::<T>, (x, y, z), r),
    ensures
        x is Some ==> r.0 == x.unwrap(),
        y is Some ==> r.1 == y.unwrap(),
        z is Some ==> r.2 == z.unwrap(),
        x is None ==> value(r.0) == 0 as real,
        y is None ==> value(r.1) == 0 as real,
        z is None ==> value(r.2) == 0 as real,
{
}

/// Tracking a position puts it last into the window, with its time, behind what
/// was received in the five seconds before; where arithmetic is exact, the
/// deviations it gives are those of that window.
pub proof fn tracking_adds_the_position<T: Scalar>(
    value: spec_fn(T) -> real,
    state: &mut LiveState<T>,
    now: u128,
    position: (T, T, T),
    r: (T, T, T),
    xs: Seq<real>,
    ys: Seq<real>,
    zs: Seq<real>,
    mean: XyzValue<real>,
)
    requires
        call_ensures(track_position::<T>, (state, now, position), r),
    ensures
        final(state)@ == old(state)@.filter(
            |s: LiveSample<T>| s.t + 5_000_000_000 >= now,
        ).push(LiveSample { t: now, x: position.0, y: position.1, z: position.2 }),
        ({
            &&& exact(value)
            &&& exact_roots(value)
            &&& final(state)@.len() <= usize::MAX
            &&& lists_window(value, final(state)@, xs, ys, zs)
            &&& xs.len() as real * mean.x == total(xs)
            &&& ys.len() as real * mean.y == total(ys)
            &&& zs.len() as real * mean.z == total(zs)
        }) ==> {
            &&& is_deviation(xs, mean.x, value(r.0))
            &&& is_deviation(ys, mean.y, value(r.1))
            &&& is_deviation(zs, mean.z, value(r.2))
        },
{
    let recent = |s: LiveSample<T>| s.t + 5_000_000_000 >= now;
    let sample = LiveSample { t: now, x: position.0, y: position.1, z: position.2 };
    assert(fresh::<T>(now) =~= recent);
    push_drops_stale_samples_only(old(state)@, sample);
    if exact(value) && exact_roots(value) && final(state)@.len() <= usize::MAX && lists_window(
        value,
        final(state)@,
        xs,
        ys,
        zs,
    ) && xs.len() as real * mean.x == total(xs) && ys.len() as real * mean.y == total(ys)
        && zs.len() as real * mean.z == total(zs) {
        lemma_window_deviates(value, final(state)@, r, xs, ys, zs, mean);
    }
}

/// A log period is the one asked for, rounded down to ten milliseconds.
pub proof fn log_period_is_rounded_down(
    millis: u64,
    r: Result<LogPeriod, InvalidLogPeriod>,
)
    requires
        call_ensures(live_log_period, (millis,), r),
    ensures
        r is Ok <==> 10 <= millis < 2560,
        r is Ok ==> log_period_ticks(r->Ok_0) * 10 <= millis < log_period_ticks(r->Ok_0) * 10 + 10,
{
}

/// A log block that was created gets the variables of all three axes and is then
/// started, with the period that was asked for.
pub proof fn created_block_is_filled_and_started(
    period_ms: u64,
    begun: (LiveLogging, Vec<LogAction>),
)
    requires
        call_ensures(LiveLogging::start, (period_ms,), begun),
    ensures
        ({
            let actions = begun.0.step(true).1;
            &&& actions.len() == 4
            &&& has_all_axes(actions.take(3))
            &&& actions[3] == LogAction::StartBlock(period_ms)
        }),
{
    let actions = begun.0.step(true).1;
    assert(actions[3] is StartBlock);
    lemma_start_step(begun.0, true, 3);
}

} // verus!
