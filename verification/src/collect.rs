//! Collecting the samples of one capture from the live position stream.
use crate::scalar::{
    deviation_is_exact, exact, exact_roots, mean_is_exact, numbers, total, Scalar,
};
use crate::stats::{is_deviation, PositionStats};
use crate::ui::UiUpdate;
use vstd::prelude::*;

verus! {

/// What came from the live position stream.
#[derive(Clone, Copy, Debug, PartialEq)]
pub enum SampleEvent<T> {
    Sample(T, T, T),
    /// The receiver was too slow and samples were skipped.
    Lagged,
    /// The stream has ended.
    Closed,
    /// Nothing came in time.
    TimedOut,
}

/// Why a capture yields no statistics.
#[derive(Clone, Copy, Debug, PartialEq, Eq, Structural)]
pub enum CollectError {
    LoggingStopped,
    TimedOut,
    NoSamples,
}

impl CollectError {
    pub open spec fn spec_message(self) -> Seq<char> {
        match self {
            CollectError::LoggingStopped => "Live position logging stopped"@,
            CollectError::TimedOut => "Timed out waiting for log data from the Crazyflie"@,
            CollectError::NoSamples => "No samples collected"@,
        }
    }

    /// The error in words.
    pub fn message(self) -> (r: &'static str)
        ensures
            r@ == self.spec_message(),
    {
        match self {
            CollectError::LoggingStopped => "Live position logging stopped",
            CollectError::TimedOut => "Timed out waiting for log data from the Crazyflie",
            CollectError::NoSamples => "No samples collected",
        }
    }
}

/// What follows an event.
#[derive(Clone, Copy, Debug, PartialEq, Eq, Structural)]
pub enum Received {
    /// A sample was added; the progress is shown and collecting goes on.
    Progress,
    /// Nothing changed; collecting goes on.
    Ignored,
    /// Collecting ends with the samples there are.
    Finish,
    /// The capture fails.
    Fail(CollectError),
}

/// The samples collected so far, and how many are wanted.
#[derive(Clone, Debug)]
pub struct Collector<T> {
    pub samples: Vec<(T, T, T)>,
    pub num_samples: usize,
}

/// Whether another event is waited for: not once there are enough samples, and
/// not once the run was stopped.
pub open spec fn wants_more(collected: nat, wanted: nat, stop: bool) -> bool {
    collected < wanted && !stop
}

/// What follows an event; `stop` tells whether the run has been stopped by then.
pub open spec fn spec_received<T>(event: SampleEvent<T>, stop: bool) -> Received {
    match event {
        SampleEvent::Sample(..) => Received::Progress,
        SampleEvent::Lagged => Received::Ignored,
        SampleEvent::Closed => Received::Fail(CollectError::LoggingStopped),
        SampleEvent::TimedOut => if stop {
            Received::Finish
        } else {
            Received::Fail(CollectError::TimedOut)
        },
    }
}

/// The samples after an event.
pub open spec fn samples_after<T>(samples: Seq<(T, T, T)>, event: SampleEvent<T>) -> Seq<
    (T, T, T),
> {
    match event {
        SampleEvent::Sample(x, y, z) => samples.push((x, y, z)),
        _ => samples,
    }
}

/// `stats` describes these samples.
pub open spec fn describes_samples<T: Scalar>(
    stats: PositionStats<T>,
    samples: Seq<(T, T, T)>,
) -> bool {
    stats.describes(
        samples.map_values(|s: (T, T, T)| s.0),
        samples.map_values(|s: (T, T, T)| s.1),
        samples.map_values(|s: (T, T, T)| s.2),
    )
}

impl<T: Scalar> Collector<T> {
    /// Wants `num_samples` samples and has none.
    pub fn new(num_samples: usize) -> (r: Self)
        ensures
            r.samples@ == Seq::<(T, T, T)>::empty(),
            r.num_samples == num_samples,
    {
        Collector { samples: Vec::new(), num_samples }
    }

    /// Whether another event is waited for.
    pub fn wants_event(&self, stop: bool) -> (r: bool)
        ensures
            r == wants_more(self.samples@.len(), self.num_samples as nat, stop),
    {
        self.samples.len() < self.num_samples && !stop
    }

    /// Takes an event; `stop` tells whether the run has been stopped by then.
    pub fn receive(&mut self, event: SampleEvent<T>, stop: bool) -> (r: Received)
        ensures
            final(self).samples@ == samples_after(old(self).samples@, event),
            final(self).num_samples == old(self).num_samples,
            r == spec_received(event, stop),
    {
        match event {
            SampleEvent::Sample(x, y, z) => {
                self.samples.push((x, y, z));
                Received::Progress
            },
            SampleEvent::Lagged => Received::Ignored,
            SampleEvent::Closed => Received::Fail(CollectError::LoggingStopped),
            SampleEvent::TimedOut => if stop {
                Received::Finish
            } else {
                Received::Fail(CollectError::TimedOut)
            },
        }
    }

    /// How the progress is shown.
    pub fn progress(&self) -> (r: Vec<UiUpdate>)
        ensures
            r@ == seq![
                UiUpdate::ProgressSamples(self.samples@.len() as i32),
                UiUpdate::TotalSamples(self.num_samples as i32),
            ],
    {
        let mut updates: Vec<UiUpdate> = Vec::new();
        updates.push(UiUpdate::ProgressSamples(self.samples.len() as i32));
        updates.push(UiUpdate::TotalSamples(self.num_samples as i32));
        updates
    }

    /// The statistics of the samples, an error if there are none.
    pub fn finish(&self) -> (r: Result<PositionStats<T>, CollectError>)
        ensures
            self.samples@.len() == 0 ==> r == Err::<PositionStats<T>, CollectError>(
                CollectError::NoSamples,
            ),
            self.samples@.len() > 0 ==> r is Ok && describes_samples(r->Ok_0, self.samples@),
    {
        if self.samples.len() == 0 {
            return Err(CollectError::NoSamples);
        }
        let n: usize = self.samples.len();
        let mut xs: Vec<T> = Vec::new();
        let mut ys: Vec<T> = Vec::new();
        let mut zs: Vec<T> = Vec::new();
        let mut i: usize = 0;
        while i < n
            invariant
                i <= n,
                n == self.samples@.len(),
                xs@ == self.samples@.take(i as int).map_values(|s: (T, T, T)| s.0),
                ys@ == self.samples@.take(i as int).map_values(|s: (T, T, T)| s.1),
                zs@ == self.samples@.take(i as int).map_values(|s: (T, T, T)| s.2),
            decreases n - i,
        {
            let sample = self.samples[i];
            xs.push(sample.0);
            ys.push(sample.1);
            zs.push(sample.2);
            assert(self.samples@.take(i + 1) =~= self.samples@.take(i as int).push(sample));
            i += 1;
        }
        assert(self.samples@.take(n as int) =~= self.samples@);
        Ok(PositionStats::from_vecs(xs, ys, zs))
    }
}

/// One turn of collecting: whether the run was stopped before it, the event, and
/// whether the run was stopped after it.
pub struct Turn<T> {
    pub stop_before: bool,
    pub event: SampleEvent<T>,
    pub stop_after: bool,
}

/// Where collecting stands after some turns.
pub enum Collecting<T> {
    /// It goes on.
    Waiting(Seq<(T, T, T)>),
    /// It ended with these samples.
    Finished(Seq<(T, T, T)>),
    /// It failed.
    Failed(CollectError),
}

/// Collecting over a series of turns, from `samples` on. After the last turn
/// `stop` tells whether the run has been stopped.
pub open spec fn collecting<T>(
    samples: Seq<(T, T, T)>,
    wanted: nat,
    turns: Seq<Turn<T>>,
    stop: bool,
) -> Collecting<T>
    decreases turns.len(),
{
    if turns.len() == 0 {
        if wants_more(samples.len(), wanted, stop) {
            Collecting::Waiting(samples)
        } else {
            Collecting::Finished(samples)
        }
    } else if !wants_more(samples.len(), wanted, turns[0].stop_before) {
        Collecting::Finished(samples)
    } else {
        match spec_received(turns[0].event, turns[0].stop_after) {
            Received::Finish => Collecting::Finished(samples),
            Received::Fail(e) => Collecting::Failed(e),
            _ => collecting(
                samples_after(samples, turns[0].event),
                wanted,
                turns.drop_first(),
                stop,
            ),
        }
    }
}

/// The samples among some events, in order.
pub open spec fn samples_of<T>(turns: Seq<Turn<T>>) -> Seq<(T, T, T)>
    decreases turns.len(),
{
    if turns.len() == 0 {
        seq![]
    } else {
        samples_after(samples_of(turns.drop_last()), turns.last().event)
    }
}

/// Collecting never yields more samples than are wanted.
pub proof fn never_more_than_wanted<T>(
    samples: Seq<(T, T, T)>,
    wanted: nat,
    turns: Seq<Turn<T>>,
    stop: bool,
)
    requires
        samples.len() <= wanted,
    ensures
        match collecting(samples, wanted, turns, stop) {
            Collecting::Waiting(s) => s.len() < wanted,
            Collecting::Finished(s) => s.len() <= wanted,
            Collecting::Failed(_) => true,
        },
    decreases turns.len(),
{
    if turns.len() > 0 && wants_more(samples.len(), wanted, turns[0].stop_before) {
        match spec_received(turns[0].event, turns[0].stop_after) {
            Received::Finish => {},
            Received::Fail(_) => {},
            _ => never_more_than_wanted(
                samples_after(samples, turns[0].event),
                wanted,
                turns.drop_first(),
                stop,
            ),
        }
    }
}

/// Collecting ends with fewer samples than are wanted only if the run was
/// stopped.
pub proof fn fewer_samples_only_when_stopped<T>(
    samples: Seq<(T, T, T)>,
    wanted: nat,
    turns: Seq<Turn<T>>,
    stop: bool,
)
    requires
        collecting(samples, wanted, turns, stop) matches Collecting::Finished(s) && s.len() < wanted,
    ensures
        stop || exists|i: int|
            0 <= i < turns.len() && ((#[trigger] turns[i]).stop_before || turns[i].stop_after),
    decreases turns.len(),
{
    if turns.len() > 0 {
        if wants_more(samples.len(), wanted, turns[0].stop_before) {
            match spec_received(turns[0].event, turns[0].stop_after) {
                Received::Finish => {
                    assert(turns[0].stop_after);
                },
                Received::Fail(_) => {},
                _ => {
                    let rest = turns.drop_first();
                    fewer_samples_only_when_stopped(
                        samples_after(samples, turns[0].event),
                        wanted,
                        rest,
                        stop,
                    );
                    if !stop {
                        let i: int = choose|i: int|
                            0 <= i < rest.len() && ((#[trigger] rest[i]).stop_before
                                || rest[i].stop_after);
                        assert(turns[i + 1] == rest[i]);
                    }
                },
            }
        } else {
            assert(turns[0].stop_before || samples.len() >= wanted);
        }
    }
}

/// While nothing stops, closes or times out, collecting keeps every sample that
/// comes, in order, until there are as many as are wanted.
pub proof fn undisturbed_collecting_keeps_samples<T>(wanted: nat, turns: Seq<Turn<T>>)
    requires
        forall|i: int|
            0 <= i < turns.len() ==> !(#[trigger] turns[i]).stop_before && (turns[i].event is Sample
                || turns[i].event is Lagged),
        samples_of(turns).len() <= wanted,
        forall|i: int|
            0 <= i < turns.len() ==> samples_of(#[trigger] turns.take(i)).len() < wanted,
    ensures
        collecting(seq![], wanted, turns, false) == (if samples_of(turns).len() < wanted {
            Collecting::Waiting(samples_of(turns))
        } else {
            Collecting::Finished(samples_of(turns))
        }),
{
    lemma_collecting_from(wanted, turns, 0);
    assert(turns.take(0) =~= seq![]);
    assert(turns.skip(0) =~= turns);
    assert(turns.take(turns.len() as int) =~= turns);
}

proof fn lemma_collecting_from<T>(wanted: nat, turns: Seq<Turn<T>>, from: int)
    requires
        0 <= from <= turns.len(),
        forall|i: int|
            0 <= i < turns.len() ==> !(#[trigger] turns[i]).stop_before && (turns[i].event is Sample
                || turns[i].event is Lagged),
        forall|i: int|
            0 <= i < turns.len() ==> samples_of(#[trigger] turns.take(i)).len() < wanted,
    ensures
        collecting(samples_of(turns.take(from)), wanted, turns.skip(from), false) == (if samples_of(
            turns,
        ).len() < wanted {
            Collecting::Waiting(samples_of(turns))
        } else {
            Collecting::Finished(samples_of(turns))
        }),
    decreases turns.len() - from,
{
    if from < turns.len() {
        let rest = turns.skip(from);
        assert(rest[0] == turns[from]);
        assert(rest.drop_first() =~= turns.skip(from + 1));
        assert(turns.take(from + 1).drop_last() =~= turns.take(from));
        lemma_collecting_from(wanted, turns, from + 1);
    } else {
        assert(turns.take(from) =~= turns);
    }
}

/// Samples that come one after another, in a run that is not stopped, are kept
/// as they came, coordinate by coordinate, and collecting ends with the last
/// that is wanted.
pub proof fn samples_are_kept_as_they_came<T>(points: Seq<(T, T, T)>, stop: bool)
    ensures
        collecting(
            seq![],
            points.len(),
            points.map_values(
                |p: (T, T, T)|
                    Turn {
                        stop_before: false,
                        event: SampleEvent::Sample(p.0, p.1, p.2),
                        stop_after: stop,
                    },
            ),
            stop,
        ) == Collecting::Finished(points),
{
    assert(seq![] + points =~= points);
    lemma_kept(points, seq![], points, stop);
}

proof fn lemma_kept<T>(
    all: Seq<(T, T, T)>,
    before: Seq<(T, T, T)>,
    points: Seq<(T, T, T)>,
    stop: bool,
)
    requires
        all == before + points,
    ensures
        collecting(
            before,
            all.len(),
            points.map_values(
                |p: (T, T, T)|
                    Turn {
                        stop_before: false,
                        event: SampleEvent::Sample(p.0, p.1, p.2),
                        stop_after: stop,
                    },
            ),
            stop,
        ) == Collecting::Finished(all),
    decreases points.len(),
{
    let turn = |p: (T, T, T)|
        Turn {
            stop_before: false,
            event: SampleEvent::Sample(p.0, p.1, p.2),
            stop_after: stop,
        };
    let turns = points.map_values(turn);
    if points.len() > 0 {
        let rest = points.drop_first();
        let more = before.push(points[0]);
        assert(more + rest =~= all);
        lemma_kept(all, more, rest, stop);
        assert(turns.drop_first() =~= rest.map_values(turn));
        assert(turns[0] == turn(points[0]));
        assert(points[0] == (points[0].0, points[0].1, points[0].2));
    } else {
        assert(before =~= all);
    }
}

/// One event does to the samples what it says: a sample is added last, as it
/// came, and nothing else adds or takes one; the number wanted stays.
pub proof fn event_adds_its_sample<T: Scalar>(
    collector: &mut Collector<T>,
    event: SampleEvent<T>,
    stop: bool,
    r: Received,
)
    requires
        call_ensures(Collector::<T>::receive, (collector, event, stop), r),
    ensures
        final(collector).num_samples == old(collector).num_samples,
        event matches SampleEvent::Sample(x, y, z) ==> final(collector).samples@ == old(
            collector,
        ).samples@.push((x, y, z)),
        !(event is Sample) ==> final(collector).samples@ == old(collector).samples@,
        r == Received::Progress <==> event is Sample,
        r == Received::Fail(CollectError::LoggingStopped) <==> event is Closed,
        r == Received::Fail(CollectError::TimedOut) <==> event is TimedOut && !stop,
        r == Received::Finish <==> event is TimedOut && stop,
{
}

/// Events are waited for exactly while samples are missing and the run was not
/// stopped.
pub proof fn events_are_wanted_while_samples_are_missing<T: Scalar>(
    collector: &Collector<T>,
    stop: bool,
    r: bool,
)
    requires
        call_ensures(Collector::<T>::wants_event, (collector, stop), r),
    ensures
        r <==> collector.samples@.len() < collector.num_samples && !stop,
{
}

/// The progress shown is how many samples there are, of how many.
pub proof fn progress_counts_the_samples<T: Scalar>(
    collector: &Collector<T>,
    r: Vec<UiUpdate>,
)
    requires
        call_ensures(Collector::<T>::progress, (collector,), r),
        collector.samples@.len() <= i32::MAX,
        collector.num_samples <= i32::MAX,
    ensures
        forall|n: i32| #[trigger]
            r@.contains(UiUpdate::ProgressSamples(n)) <==> n == collector.samples@.len(),
        forall|n: i32| #[trigger]
            r@.contains(UiUpdate::TotalSamples(n)) <==> n == collector.num_samples,
{
    let count = collector.samples@.len() as i32;
    let wanted = collector.num_samples as i32;
    assert(r@[0] == UiUpdate::ProgressSamples(count));
    assert(r@[1] == UiUpdate::TotalSamples(wanted));
    assert(r@.contains(UiUpdate::ProgressSamples(count)));
    assert(r@.contains(UiUpdate::TotalSamples(wanted)));
}

/// The coordinates of some samples.
pub open spec fn lists_samples<T>(
    value: spec_fn(T) -> real,
    samples: Seq<(T, T, T)>,
    xs: Seq<real>,
    ys: Seq<real>,
    zs: Seq<real>,
) -> bool {
    &&& xs.len() == samples.len() && ys.len() == samples.len() && zs.len() == samples.len()
    &&& forall|i: int| 0 <= i < samples.len() ==> #[trigger] xs[i] == value(samples[i].0)
    &&& forall|i: int| 0 <= i < samples.len() ==> #[trigger] ys[i] == value(samples[i].1)
    &&& forall|i: int| 0 <= i < samples.len() ==> #[trigger] zs[i] == value(samples[i].2)
}

/// Where arithmetic is exact, a capture yields the mean position of its samples
/// and their deviations, axis by axis; without samples it fails.
pub proof fn capture_yields_the_statistics_of_its_samples<T: Scalar>(
    value: spec_fn(T) -> real,
    collector: &Collector<T>,
    r: Result<PositionStats<T>, CollectError>,
    xs: Seq<real>,
    ys: Seq<real>,
    zs: Seq<real>,
)
    requires
        exact(value),
        exact_roots(value),
        call_ensures(Collector::<T>::finish, (collector,), r),
        lists_samples(value, collector.samples@, xs, ys, zs),
    ensures
        xs.len() == 0 ==> r == Err::<PositionStats<T>, CollectError>(CollectError::NoSamples),
        xs.len() > 0 ==> r is Ok && {
            let stats = r->Ok_0;
            let n = xs.len() as real;
            &&& n * value(stats.mean_x) == total(xs)
            &&& n * value(stats.mean_y) == total(ys)
            &&& n * value(stats.mean_z) == total(zs)
            &&& is_deviation(xs, value(stats.mean_x), value(stats.std_x))
            &&& is_deviation(ys, value(stats.mean_y), value(stats.std_y))
            &&& is_deviation(zs, value(stats.mean_z), value(stats.std_z))
        },
{
    if xs.len() > 0 {
        let samples = collector.samples@;
        let stats = r->Ok_0;
        let a = samples.map_values(|s: (T, T, T)| s.0);
        let b = samples.map_values(|s: (T, T, T)| s.1);
        let c = samples.map_values(|s: (T, T, T)| s.2);
        assert(samples.len() == collector.samples.len());
        assert(numbers(value, a) =~= xs);
        assert(numbers(value, b) =~= ys);
        assert(numbers(value, c) =~= zs);
        mean_is_exact(value, a, stats.mean_x);
        mean_is_exact(value, b, stats.mean_y);
        mean_is_exact(value, c, stats.mean_z);
        deviation_is_exact(value, a, value(stats.mean_x), stats.std_x);
        deviation_is_exact(value, b, value(stats.mean_y), stats.std_y);
        deviation_is_exact(value, c, value(stats.mean_z), stats.std_z);
    }
}

/// A new collector has no samples and waits for as many as it is made for.
pub proof fn new_collector_waits_for_its_samples<T: Scalar>(
    num_samples: usize,
    collector: Collector<T>,
    stop: bool,
    wants: bool,
    r: Result<PositionStats<T>, CollectError>,
)
    requires
        call_ensures(Collector::<T>::new, (num_samples,), collector),
        call_ensures(Collector::<T>::wants_event, (&collector, stop), wants),
        call_ensures(Collector::<T>::finish, (&collector,), r),
    ensures
        collector.num_samples == num_samples,
        collector.samples@.len() == 0,
        wants <==> num_samples > 0 && !stop,
        r == Err::<PositionStats<T>, CollectError>(CollectError::NoSamples),
{
}

} // verus!
