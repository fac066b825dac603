//! The live position: a rolling window of samples and what is shown of it.
use crate::scalar::{
    are_turned, deviation_forgets_turns, deviation_is_exact, exact, exact_roots, is_std, numbers,
    settled, total, unturned, Scalar,
};
use crate::stats::{is_deviation, PositionStats, XyzValue};
use std::collections::VecDeque;
use vstd::prelude::*;

verus! {

/// Window over which the live standard deviation is computed, in nanoseconds;
/// samples older than this are dropped from `LiveState::buffer`.
pub const LIVE_WINDOW_NANOS: u128 = 5_000_000_000;

/// Half-extent (in meters) of the ground grid drawn in the live 3D view.
pub const VIZ_GRID_RANGE: i32 = 8;

/// A position and when it was received, in nanoseconds of a steady clock.
#[derive(Clone, Copy, Debug, PartialEq)]
pub struct LiveSample<T> {
    pub t: u128,
    pub x: T,
    pub y: T,
    pub z: T,
}

/// The samples of the window, oldest first.
pub struct LiveState<T> {
    pub buffer: VecDeque<LiveSample<T>>,
}

impl<T> View for LiveState<T> {
    type V = Seq<LiveSample<T>>;

    open spec fn view(&self) -> Seq<LiveSample<T>> {
        self.buffer@
    }
}

/// The time from `earlier` to `later`, zero if they come in the other order.
pub open spec fn elapsed(earlier: u128, later: u128) -> int {
    if later >= earlier {
        later - earlier
    } else {
        0
    }
}

/// Whether a sample taken at `t` has left the window that ends at `now`.
pub open spec fn is_stale(t: u128, now: u128) -> bool {
    elapsed(t, now) > LIVE_WINDOW_NANOS
}

/// Tells the samples that are still in the window that ends at `now`.
pub open spec fn fresh<T>(now: u128) -> spec_fn(LiveSample<T>) -> bool {
    |s: LiveSample<T>| !is_stale(s.t, now)
}

/// The samples without those that have left the window that ends at `now`.
pub open spec fn without_stale<T>(samples: Seq<LiveSample<T>>, now: u128) -> Seq<LiveSample<T>> {
    samples.filter(fresh(now))
}

impl<T: Copy> LiveState<T> {
    /// An empty window.
    pub fn new() -> (r: Self)
        ensures
            r@ == Seq::<LiveSample<T>>::empty(),
    {
        LiveState { buffer: VecDeque::new() }
    }

    /// Forgets all samples.
    pub fn clear(&mut self)
        ensures
            final(self)@ == Seq::<LiveSample<T>>::empty(),
    {
        self.buffer.clear();
    }
}

/// Appends a sample and drops any samples older than the window.
pub fn push_live_sample<T: Copy>(state: &mut LiveState<T>, sample: LiveSample<T>)
    ensures
        final(state)@ == without_stale(old(state)@.push(sample), sample.t),
{
    state.buffer.push_back(sample);
    let n: usize = state.buffer.len();
    let mut kept: VecDeque<LiveSample<T>> = VecDeque::new();
    let mut i: usize = 0;
    assert(state@.take(0).filter(fresh(sample.t)) =~= kept@) by {
        reveal(Seq::filter);
    }
    while i < n
        invariant
            i <= n,
            n == state@.len(),
            kept@ == state@.take(i as int).filter(fresh(sample.t)),
        decreases n - i,
    {
        let s = state.buffer[i];
        if !(sample.t > s.t && sample.t - s.t > LIVE_WINDOW_NANOS) {
            kept.push_back(s);
        }
        proof {
            assert(state@.take(i + 1) =~= state@.take(i as int).push(s));
            lemma_filter_push(state@.take(i as int), s, fresh(sample.t));
        }
        i += 1;
    }
    assert(state@.take(n as int) =~= state@);
    state.buffer = kept;
}

/// The x coordinates of a list of samples.
pub open spec fn column_x<T>(samples: Seq<LiveSample<T>>) -> Seq<T> {
    samples.map_values(|s: LiveSample<T>| s.x)
}

/// The y coordinates of a list of samples.
pub open spec fn column_y<T>(samples: Seq<LiveSample<T>>) -> Seq<T> {
    samples.map_values(|s: LiveSample<T>| s.y)
}

/// The z coordinates of a list of samples.
pub open spec fn column_z<T>(samples: Seq<LiveSample<T>>) -> Seq<T> {
    samples.map_values(|s: LiveSample<T>| s.z)
}

/// `r` holds the sample standard deviations of the samples along the three axes,
/// zero for fewer than two samples.
pub open spec fn is_live_std<T: Scalar>(samples: Seq<LiveSample<T>>, r: (T, T, T)) -> bool {
    &&& is_std(column_x(samples), r.0)
    &&& is_std(column_y(samples), r.1)
    &&& is_std(column_z(samples), r.2)
}

/// `stats` are the statistics of a capture of the same coordinates.
pub open spec fn is_capture_of<T: Scalar>(
    samples: Seq<LiveSample<T>>,
    stats: PositionStats<T>,
) -> bool {
    stats.is_stats_of(column_x(samples), column_y(samples), column_z(samples))
}

/// `r` holds the deviations that a capture of the same coordinates has.
pub open spec fn deviates_like_a_capture<T: Scalar>(
    samples: Seq<LiveSample<T>>,
    r: (T, T, T),
) -> bool {
    exists|stats: PositionStats<T>| #[trigger]
        is_capture_of(samples, stats) && r == (stats.std_x, stats.std_y, stats.std_z)
}

/// Sample standard deviation of x/y/z over the current buffer (0 if fewer than 2 samples).
pub fn live_std<T: Scalar>(state: &LiveState<T>) -> (r: (T, T, T))
    ensures
        is_live_std(state@, r),
        deviates_like_a_capture(state@, r),
{
    let n: usize = state.buffer.len();
    let mut xs: Vec<T> = Vec::new();
    let mut ys: Vec<T> = Vec::new();
    let mut zs: Vec<T> = Vec::new();
    let mut i: usize = 0;
    while i < n
        invariant
            i <= n,
            n == state@.len(),
            xs@ == column_x(state@.take(i as int)),
            ys@ == column_y(state@.take(i as int)),
            zs@ == column_z(state@.take(i as int)),
        decreases n - i,
    {
        let sample = state.buffer[i];
        xs.push(sample.x);
        ys.push(sample.y);
        zs.push(sample.z);
        assert(state@.take(i + 1) =~= state@.take(i as int).push(sample));
        i += 1;
    }
    assert(state@.take(n as int) =~= state@);
    let stats = PositionStats::from_vecs(xs, ys, zs);
    assert(is_capture_of(state@, stats));
    (stats.std_x, stats.std_y, stats.std_z)
}

/// The live deviations are those that a capture of the same coordinates has,
/// whatever the times of the samples: what may be the one may be the other, and
/// where every operation gives one result they come to the same. `value` is what
/// a number comes to.
pub proof fn live_deviations_are_those_of_a_capture<T: Scalar, V>(
    samples: Seq<LiveSample<T>>,
    stats: PositionStats<T>,
    r: (T, T, T),
    value: spec_fn(T) -> V,
)
    requires
        is_capture_of(samples, stats),
    ensures
        is_live_std(samples, r) <==> deviates_like_a_capture(samples, r),
        is_live_std(samples, (stats.std_x, stats.std_y, stats.std_z)),
        settled(value) && is_live_std(samples, r) ==> {
            &&& value(r.0) == value(stats.std_x)
            &&& value(r.1) == value(stats.std_y)
            &&& value(r.2) == value(stats.std_z)
        },
{
    if is_live_std(samples, r) {
        assert(is_capture_of(
            samples,
            (PositionStats { std_x: r.0, std_y: r.1, std_z: r.2, ..stats }),
        ));
    }
    if settled(value) && is_live_std(samples, r) {
        let (xs, ys, zs) = (column_x(samples), column_y(samples), column_z(samples));
        assert(are_turned(value, unturned(), xs, xs));
        assert(are_turned(value, unturned(), ys, ys));
        assert(are_turned(value, unturned(), zs, zs));
        deviation_forgets_turns(value, unturned(), xs, xs, r.0, stats.std_x);
        deviation_forgets_turns(value, unturned(), ys, ys, r.1, stats.std_y);
        deviation_forgets_turns(value, unturned(), zs, zs, r.2, stats.std_z);
    }
}

/// The newest sample of the window.
pub fn latest_sample<T: Copy>(state: &LiveState<T>) -> (r: Option<LiveSample<T>>)
    ensures
        r == (if state@.len() > 0 {
            Some(state@.last())
        } else {
            None
        }),
{
    let n: usize = state.buffer.len();
    if n > 0 {
        Some(state.buffer[n - 1])
    } else {
        None
    }
}

/// The coordinates of every sample, oldest first, three for each.
pub open spec fn spec_trail<T>(samples: Seq<LiveSample<T>>) -> Seq<T>
    decreases samples.len(),
{
    if samples.len() == 0 {
        seq![]
    } else {
        spec_trail(samples.drop_last()) + seq![
            samples.last().x,
            samples.last().y,
            samples.last().z,
        ]
    }
}

/// What the live 3D view shows: the newest position and the trail behind it.
#[derive(Clone, Debug)]
pub struct LiveScene<T> {
    pub current: Option<XyzValue<T>>,
    pub trail: Vec<T>,
}

/// The scene for a view of the given size in pixels; none for a view without
/// area.
pub fn live_scene<T: Copy>(state: &LiveState<T>, width: u32, height: u32) -> (r: Option<
    LiveScene<T>,
>)
    ensures
        width == 0 || height == 0 ==> r is None,
        width > 0 && height > 0 ==> {
            &&& r is Some
            &&& r.unwrap().trail@ == spec_trail(state@)
            &&& r.unwrap().current == (if state@.len() > 0 {
                Some(XyzValue { x: state@.last().x, y: state@.last().y, z: state@.last().z })
            } else {
                None
            })
        },
{
    if width == 0 || height == 0 {
        return None;
    }
    let current = match latest_sample(state) {
        Some(s) => Some(XyzValue { x: s.x, y: s.y, z: s.z }),
        None => None,
    };
    let n: usize = state.buffer.len();
    let mut trail: Vec<T> = Vec::new();
    let mut i: usize = 0;
    while i < n
        invariant
            i <= n,
            n == state@.len(),
            trail@ == spec_trail(state@.take(i as int)),
        decreases n - i,
    {
        let sample = state.buffer[i];
        trail.push(sample.x);
        trail.push(sample.y);
        trail.push(sample.z);
        assert(state@.take(i + 1).drop_last() =~= state@.take(i as int));
        i += 1;
    }
    assert(state@.take(n as int) =~= state@);
    Some(LiveScene { current, trail })
}

/// The samples came in the order of their times.
pub open spec fn in_time_order<T>(samples: Seq<LiveSample<T>>) -> bool {
    forall|i: int, j: int| 0 <= i <= j < samples.len() ==> samples[i].t <= samples[j].t
}

proof fn lemma_filter_push<A>(s: Seq<A>, x: A, pred: spec_fn(A) -> bool)
    ensures
        s.push(x).filter(pred) == (if pred(x) {
            s.filter(pred).push(x)
        } else {
            s.filter(pred)
        }),
{
    reveal(Seq::filter);
    assert(s.push(x).drop_last() =~= s);
}

/// Of two filters in a row the first makes no difference if it keeps all that
/// the second keeps.
proof fn lemma_filter_filter<A>(
    s: Seq<A>,
    first: spec_fn(A) -> bool,
    second: spec_fn(A) -> bool,
)
    requires
        forall|i: int| 0 <= i < s.len() && second(#[trigger] s[i]) ==> first(s[i]),
    ensures
        s.filter(first).filter(second) == s.filter(second),
    decreases s.len(),
{
    if s.len() > 0 {
        let front = s.drop_last();
        assert(s =~= front.push(s.last()));
        assert forall|i: int| 0 <= i < front.len() && second(#[trigger] front[i]) implies first(
            front[i],
        ) by {
            assert(front[i] == s[i]);
        }
        lemma_filter_filter(front, first, second);
        lemma_filter_push(front, s.last(), first);
        lemma_filter_push(front, s.last(), second);
        lemma_filter_push(front.filter(first), s.last(), second);
        assert(second(s[s.len() - 1]) ==> first(s[s.len() - 1]));
    } else {
        reveal(Seq::filter);
    }
}

/// A push keeps the newest sample, behind the older ones in their order; it
/// drops every sample older than the window and no other.
pub proof fn push_drops_stale_samples_only<T>(samples: Seq<LiveSample<T>>, sample: LiveSample<T>)
    ensures
        ({
            let window = without_stale(samples.push(sample), sample.t);
            &&& window == without_stale(samples, sample.t).push(sample)
            &&& forall|i: int|
                0 <= i < window.len() ==> !is_stale((#[trigger] window[i]).t, sample.t)
            &&& forall|i: int|
                0 <= i < samples.len() ==> (window.contains(#[trigger] samples[i]) <==> !is_stale(
                    samples[i].t,
                    sample.t,
                ))
        }),
{
    broadcast use vstd::seq_lib::group_filter_ensures;

    let all = samples.push(sample);
    let window = without_stale(all, sample.t);
    lemma_filter_push(samples, sample, fresh(sample.t));
    assert forall|i: int| 0 <= i < window.len() implies !is_stale(
        (#[trigger] window[i]).t,
        sample.t,
    ) by {
        assert(fresh(sample.t)(all.filter(fresh(sample.t))[i]));
    }
    assert forall|i: int| 0 <= i < samples.len() implies (window.contains(#[trigger] samples[i])
        <==> !is_stale(samples[i].t, sample.t)) by {
        assert(all[i] == samples[i]);
        if fresh(sample.t)(all[i]) {
            assert(all.filter(fresh(sample.t)).contains(all[i]));
        }
    }
}

/// The window after a series of pushes into an empty one.
pub open spec fn window_over<T>(pushed: Seq<LiveSample<T>>) -> Seq<LiveSample<T>>
    decreases pushed.len(),
{
    if pushed.len() == 0 {
        seq![]
    } else {
        without_stale(window_over(pushed.drop_last()).push(pushed.last()), pushed.last().t)
    }
}

/// Whatever was pushed, and in whatever order, the window ends with the newest
/// sample and holds none that is older than it is wide.
pub proof fn window_holds_no_stale_sample<T>(pushed: Seq<LiveSample<T>>)
    requires
        pushed.len() > 0,
    ensures
        window_over(pushed).len() > 0,
        window_over(pushed).last() == pushed.last(),
        forall|i: int|
            0 <= i < window_over(pushed).len() ==> !is_stale(
                (#[trigger] window_over(pushed)[i]).t,
                pushed.last().t,
            ),
{
    push_drops_stale_samples_only(window_over(pushed.drop_last()), pushed.last());
}

/// However many samples were pushed, if they came in the order of their times,
/// the window holds exactly those that are not older than it is wide, in order.
pub proof fn window_holds_the_last_seconds<T>(pushed: Seq<LiveSample<T>>)
    requires
        pushed.len() > 0,
        in_time_order(pushed),
    ensures
        window_over(pushed) == without_stale(pushed, pushed.last().t),
    decreases pushed.len(),
{
    let earlier = pushed.drop_last();
    let last = pushed.last();
    assert(pushed =~= earlier.push(last));
    lemma_filter_push(earlier, last, fresh(last.t));
    lemma_filter_push(window_over(earlier), last, fresh(last.t));
    if earlier.len() > 0 {
        let before = earlier.last();
        assert(in_time_order(earlier));
        window_holds_the_last_seconds(earlier);
        assert(pushed[earlier.len() - 1].t <= pushed[earlier.len() as int].t);
        assert(before.t <= last.t);
        lemma_filter_filter(earlier, fresh(before.t), fresh(last.t));
    } else {
        assert(window_over(earlier) =~= earlier);
    }
}

/// The trail has three numbers for every sample of the window: those of sample
/// `i` stand at three times `i`.
pub proof fn trail_lists_coordinates<T>(samples: Seq<LiveSample<T>>, i: int)
    requires
        0 <= i < samples.len(),
    ensures
        spec_trail(samples).len() == 3 * samples.len(),
        spec_trail(samples)[3 * i] == samples[i].x,
        spec_trail(samples)[3 * i + 1] == samples[i].y,
        spec_trail(samples)[3 * i + 2] == samples[i].z,
    decreases samples.len(),
{
    lemma_trail_len(samples);
    lemma_trail_len(samples.drop_last());
    if i < samples.len() - 1 {
        trail_lists_coordinates(samples.drop_last(), i);
        assert(samples.drop_last()[i] == samples[i]);
    }
}

proof fn lemma_trail_len<T>(samples: Seq<LiveSample<T>>)
    ensures
        spec_trail(samples).len() == 3 * samples.len(),
    decreases samples.len(),
{
    if samples.len() > 0 {
        lemma_trail_len(samples.drop_last());
    }
}

/// A push puts the sample last and keeps of the others, in order, exactly those
/// that are at most five seconds older than it.
pub proof fn push_keeps_five_seconds<T: Copy>(state: &mut LiveState<T>, sample: LiveSample<T>)
    requires
        call_ensures(push_live_sample::<T>, (state, sample), ()),
    ensures
        final(state)@ == old(state)@.filter(
            |s: LiveSample<T>| s.t + 5_000_000_000 >= sample.t,
        ).push(sample),
{
    let recent = |s: LiveSample<T>| s.t + 5_000_000_000 >= sample.t;
    assert(fresh::<T>(sample.t) =~= recent);
    push_drops_stale_samples_only(old(state)@, sample);
}

/// Where arithmetic is exact, the live deviation along an axis is that of the
/// coordinates of all samples of the window along that axis.
pub proof fn live_deviation_is_that_of_the_window<T: Scalar>(
    value: spec_fn(T) -> real,
    state: &LiveState<T>,
    r: (T, T, T),
    xs: Seq<real>,
    ys: Seq<real>,
    zs: Seq<real>,
    mean: XyzValue<real>,
)
    requires
        exact(value),
        exact_roots(value),
        state@.len() <= usize::MAX,
        call_ensures(live_std::<T>, (state,), r),
        lists_window(value, state@, xs, ys, zs),
        xs.len() as real * mean.x == total(xs),
        ys.len() as real * mean.y == total(ys),
        zs.len() as real * mean.z == total(zs),
    ensures
        is_deviation(xs, mean.x, value(r.0)),
        is_deviation(ys, mean.y, value(r.1)),
        is_deviation(zs, mean.z, value(r.2)),
{
    lemma_window_deviates(value, state@, r, xs, ys, zs, mean);
}

/// The coordinates of the samples of a window.
pub open spec fn lists_window<T>(
    value: spec_fn(T) -> real,
    samples: Seq<LiveSample<T>>,
    xs: Seq<real>,
    ys: Seq<real>,
    zs: Seq<real>,
) -> bool {
    &&& xs.len() == samples.len() && ys.len() == samples.len() && zs.len() == samples.len()
    &&& forall|i: int| 0 <= i < samples.len() ==> #[trigger] xs[i] == value(samples[i].x)
    &&& forall|i: int| 0 <= i < samples.len() ==> #[trigger] ys[i] == value(samples[i].y)
    &&& forall|i: int| 0 <= i < samples.len() ==> #[trigger] zs[i] == value(samples[i].z)
}

pub(crate) proof fn lemma_window_deviates<T: Scalar>(
    value: spec_fn(T) -> real,
    samples: Seq<LiveSample<T>>,
    r: (T, T, T),
    xs: Seq<real>,
    ys: Seq<real>,
    zs: Seq<real>,
    mean: XyzValue<real>,
)
    requires
        exact(value),
        exact_roots(value),
        samples.len() <= usize::MAX,
        is_live_std(samples, r),
        lists_window(value, samples, xs, ys, zs),
        xs.len() as real * mean.x == total(xs),
        ys.len() as real * mean.y == total(ys),
        zs.len() as real * mean.z == total(zs),
    ensures
        is_deviation(xs, mean.x, value(r.0)),
        is_deviation(ys, mean.y, value(r.1)),
        is_deviation(zs, mean.z, value(r.2)),
{
    assert(numbers(value, column_x(samples)) =~= xs);
    assert(numbers(value, column_y(samples)) =~= ys);
    assert(numbers(value, column_z(samples)) =~= zs);
    deviation_is_exact(value, column_x(samples), mean.x, r.0);
    deviation_is_exact(value, column_y(samples), mean.y, r.1);
    deviation_is_exact(value, column_z(samples), mean.z, r.2);
}

/// A scene shows the whole window: a trail with the coordinates of every sample,
/// oldest first, that ends where the current position is. A view without area
/// has no scene.
pub proof fn scene_shows_the_window<T: Copy>(
    state: &LiveState<T>,
    width: u32,
    height: u32,
    r: Option<LiveScene<T>>,
    i: int,
)
    requires
        call_ensures(live_scene::<T>, (state, width, height), r),
        0 <= i < state@.len(),
    ensures
        r is Some <==> width > 0 && height > 0,
        r is Some ==> {
            let trail = r.unwrap().trail@;
            let n = state@.len() as int;
            &&& trail.len() == 3 * n
            &&& trail[3 * i] == state@[i].x
            &&& trail[3 * i + 1] == state@[i].y
            &&& trail[3 * i + 2] == state@[i].z
            &&& r.unwrap().current == Some(
                XyzValue { x: trail[3 * n - 3], y: trail[3 * n - 2], z: trail[3 * n - 1] },
            )
        },
{
    trail_lists_coordinates(state@, i);
    trail_lists_coordinates(state@, state@.len() - 1);
}

/// An empty window has an empty scene.
pub proof fn empty_window_has_an_empty_scene<T: Copy>(
    state: &LiveState<T>,
    width: u32,
    height: u32,
    r: Option<LiveScene<T>>,
)
    requires
        call_ensures(live_scene::<T>, (state, width, height), r),
        state@.len() == 0,
        r is Some,
    ensures
        r.unwrap().trail@.len() == 0,
        r.unwrap().current is None,
{
}

/// The sample that was just pushed is the latest one.
pub proof fn pushed_sample_is_the_latest<T: Copy>(
    state: &mut LiveState<T>,
    sample: LiveSample<T>,
    after: &LiveState<T>,
    r: Option<LiveSample<T>>,
)
    requires
        call_ensures(push_live_sample::<T>, (state, sample), ()),
        after@ == final(state)@,
        call_ensures(latest_sample::<T>, (after,), r),
    ensures
        r == Some(sample),
{
    push_keeps_five_seconds(state, sample);
}

/// A new window, and one that was cleared, has no latest sample.
pub proof fn new_and_cleared_windows_are_empty<T: Copy>(
    new: LiveState<T>,
    of_new: Option<LiveSample<T>>,
    state: &mut LiveState<T>,
    cleared: &LiveState<T>,
    of_cleared: Option<LiveSample<T>>,
)
    requires
        call_ensures(LiveState::<T>::new, (), new),
        call_ensures(latest_sample::<T>, (&new,), of_new),
        call_ensures(LiveState::<T>::clear, (state,), ()),
        cleared@ == final(state)@,
        call_ensures(latest_sample::<T>, (cleared,), of_cleared),
    ensures
        new@.len() == 0,
        of_new is None,
        final(state)@.len() == 0,
        of_cleared is None,
{
}

} // verus!
