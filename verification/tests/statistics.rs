use loco_lh_alignment::collect::{CollectError, Collector, Received, SampleEvent};
use loco_lh_alignment::live::{
    latest_sample, live_scene, live_std, push_live_sample, LiveSample, LiveState,
    LIVE_WINDOW_NANOS, VIZ_GRID_RANGE,
};
use loco_lh_alignment::live_log::{packet_position, track_position};
use loco_lh_alignment::scalar::{mean, stddev, sum, Scalar};
use loco_lh_alignment::shift_file::shift_anchor_positions;
use loco_lh_alignment::stats::{
    alignment_of_run, build_alignment_result, deviation_role, PointResult, PositionStats, XyzValue,
};
use loco_lh_alignment::system::{Role, SystemKind};
use loco_lh_alignment::ui::UiUpdate;

#[derive(Clone, Copy, Debug, PartialEq)]
struct Meters(f32);

impl Scalar for Meters {
    fn zero() -> Self {
        Meters(0.0)
    }
    fn empty_sum() -> Self {
        Meters(-0.0)
    }
    fn plus(self, other: Self) -> Self {
        Meters(self.0 + other.0)
    }
    fn minus(self, other: Self) -> Self {
        Meters(self.0 - other.0)
    }
    fn squared(self) -> Self {
        Meters(self.0.powi(2))
    }
    fn divided_by(self, n: usize) -> Self {
        Meters(self.0 / n as f32)
    }
    fn root(self) -> Self {
        Meters(self.0.sqrt())
    }
}

fn m(values: &[f32]) -> Vec<Meters> {
    values.iter().map(|v| Meters(*v)).collect()
}

fn at(x: f32, y: f32, z: f32) -> PositionStats<Meters> {
    PositionStats::from_vecs(m(&[x]), m(&[y]), m(&[z]))
}

#[test]
fn values_are_added_from_first_to_last() {
    // 1e8 absorbs 1.0 in single precision, so the order shows.
    assert_eq!(sum(&m(&[1.0e8, 1.0, -1.0e8])), Meters(0.0));
    assert_eq!(sum(&m(&[1.0e8, -1.0e8, 1.0])), Meters(1.0));
    assert_eq!(sum(&m(&[])), Meters(0.0));
}

#[test]
fn mean_divides_by_the_number_of_values() {
    assert_eq!(mean(&m(&[1.0, 2.0, 6.0])), Meters(3.0));
    assert!(mean(&m(&[])).0.is_nan());
}

#[test]
fn deviation_is_that_of_a_sample() {
    assert_eq!(stddev(&m(&[2.0, 4.0, 4.0, 4.0, 5.0, 5.0, 7.0, 9.0])), Meters((32.0f32 / 7.0).sqrt()));
    assert_eq!(stddev(&m(&[1.0, 3.0])), Meters(2.0f32.sqrt()));
}

#[test]
fn fewer_than_two_values_do_not_deviate() {
    assert_eq!(stddev(&m(&[])), Meters(0.0));
    assert_eq!(stddev(&m(&[42.0])), Meters(0.0));
}

#[test]
fn statistics_of_a_capture() {
    let s = PositionStats::from_vecs(m(&[1.0, 3.0]), m(&[2.0, 2.0]), m(&[0.0, 4.0]));
    assert_eq!((s.mean_x, s.mean_y, s.mean_z), (Meters(2.0), Meters(2.0), Meters(2.0)));
    assert_eq!(
        (s.std_x, s.std_y, s.std_z),
        (Meters(2.0f32.sqrt()), Meters(0.0), Meters(8.0f32.sqrt()))
    );
}

#[test]
fn statistics_of_no_samples_are_zero() {
    let s = PositionStats::from_vecs(m(&[]), m(&[1.0]), m(&[2.0]));
    for v in [s.mean_x, s.mean_y, s.mean_z, s.std_x, s.std_y, s.std_z] {
        assert_eq!(v, Meters(0.0));
    }
}

#[test]
fn total_deviation_is_the_norm() {
    let mut s = at(0.0, 0.0, 0.0);
    s.std_x = Meters(2.0);
    s.std_y = Meters(3.0);
    s.std_z = Meters(6.0);
    assert_eq!(s.total_std(), Meters(7.0));
}

#[test]
fn shift_of_a_point_is_base_less_moving() {
    let p = PointResult { point_index: 0, base: at(5.0, 6.0, 7.0), moving: at(1.0, 8.0, 7.0) };
    assert_eq!((p.dx(), p.dy(), p.dz()), (Meters(4.0), Meters(-2.0), Meters(0.0)));
}

#[test]
fn alignment_of_two_points() {
    let results = [
        PointResult { point_index: 0, base: at(5.0, 6.0, 7.0), moving: at(1.0, 8.0, 7.0) },
        PointResult { point_index: 1, base: at(2.0, 0.0, 1.0), moving: at(0.0, 4.0, 2.0) },
    ];
    let r = build_alignment_result(&results, SystemKind::Loco, SystemKind::Lighthouse);
    assert_eq!(r.base_system, "Loco");
    assert_eq!(r.moving_system, "Lighthouse");
    assert_eq!(r.shift_vector, XyzValue { x: Meters(3.0), y: Meters(-3.0), z: Meters(-0.5) });
    assert_eq!(
        r.std_deviation,
        XyzValue { x: Meters(2.0f32.sqrt()), y: Meters(2.0f32.sqrt()), z: Meters(0.5f32.sqrt()) }
    );
    assert_eq!(r.point_count, 2);
    assert_eq!(r.points.len(), 2);
    assert_eq!((r.points[0].point, r.points[1].point), (1, 2));
    assert_eq!(r.points[0].base, XyzValue { x: Meters(5.0), y: Meters(6.0), z: Meters(7.0) });
    assert_eq!(r.points[1].moving, XyzValue { x: Meters(0.0), y: Meters(4.0), z: Meters(2.0) });
    assert_eq!(r.points[1].shift, XyzValue { x: Meters(2.0), y: Meters(-4.0), z: Meters(-1.0) });
}

#[test]
fn alignment_of_one_point_does_not_deviate() {
    let results =
        [PointResult { point_index: 7, base: at(1.0, 1.0, 1.0), moving: at(0.0, 0.0, 0.0) }];
    let r = build_alignment_result(&results, SystemKind::Loco, SystemKind::Loco);
    assert_eq!(r.points[0].point, 8);
    assert_eq!(r.std_deviation, XyzValue { x: Meters(0.0), y: Meters(0.0), z: Meters(0.0) });
}

#[test]
fn a_run_without_points_has_no_alignment() {
    let none: [PointResult<Meters>; 0] = [];
    assert!(alignment_of_run(&none, SystemKind::Loco, SystemKind::Lighthouse).is_none());
    let one = [PointResult { point_index: 0, base: at(1.0, 2.0, 3.0), moving: at(0.0, 0.0, 0.0) }];
    let r = alignment_of_run(&one, SystemKind::Loco, SystemKind::Lighthouse).unwrap();
    assert_eq!(r.shift_vector, XyzValue { x: Meters(1.0), y: Meters(2.0), z: Meters(3.0) });
    assert_eq!(r.point_count, 1);
}

#[test]
fn the_shift_brings_the_systems_in_line() {
    let results = [
        PointResult { point_index: 0, base: at(5.0, 6.0, 7.0), moving: at(1.0, 8.0, 6.5) },
        PointResult { point_index: 1, base: at(2.0, 0.0, 1.0), moving: at(-2.0, 2.0, 0.5) },
    ];
    let r = build_alignment_result(&results, SystemKind::Lighthouse, SystemKind::Loco);
    let mut anchors: Vec<(i64, XyzValue<Meters>)> =
        results.iter().map(|p| (p.point_index as i64, p.moving.mean_position())).collect();
    shift_anchor_positions(&mut anchors, r.shift_vector);
    assert_eq!(anchors[0], (0, results[0].base.mean_position()));
    assert_eq!(anchors[1], (1, results[1].base.mean_position()));
}

#[test]
fn the_shift_is_the_closest_translation() {
    let results = [
        PointResult { point_index: 0, base: at(4.0, 1.0, 0.0), moving: at(0.0, 0.0, 0.0) },
        PointResult { point_index: 1, base: at(2.0, 3.0, 0.0), moving: at(0.0, 0.0, 1.0) },
    ];
    let shift = build_alignment_result(&results, SystemKind::Loco, SystemKind::Loco).shift_vector;
    assert_eq!(shift, XyzValue { x: Meters(3.0), y: Meters(2.0), z: Meters(-0.5) });
    // The centers meet: (0, 0, 0.5) moved by the shift is (3, 2, 0).
    let mut center = vec![(0, XyzValue { x: Meters(0.0), y: Meters(0.0), z: Meters(0.5) })];
    shift_anchor_positions(&mut center, shift);
    assert_eq!(center[0].1, XyzValue { x: Meters(3.0), y: Meters(2.0), z: Meters(0.0) });
    let misfit = |x: f32, y: f32, z: f32| -> f32 {
        results
            .iter()
            .map(|p| {
                (p.dx().0 - x).powi(2) + (p.dy().0 - y).powi(2) + (p.dz().0 - z).powi(2)
            })
            .sum()
    };
    let least = misfit(shift.x.0, shift.y.0, shift.z.0);
    assert_eq!(least, 4.5);
    for (x, y, z) in [(2.5, 2.0, -0.5), (3.0, 2.5, -0.5), (3.0, 2.0, 0.0), (4.0, 1.0, 0.0)] {
        assert!(least < misfit(x, y, z));
    }
}

#[test]
fn a_report_says_nothing_of_deviations_in_a_capture() {
    let mut results = [
        PointResult { point_index: 0, base: at(4.0, 1.0, 0.0), moving: at(0.0, 0.0, 0.0) },
        PointResult { point_index: 1, base: at(2.0, 3.0, 0.0), moving: at(0.0, 0.0, 1.0) },
    ];
    let before = build_alignment_result(&results, SystemKind::Loco, SystemKind::Lighthouse);
    results[0].base.std_x = Meters(9.0);
    results[1].moving.std_z = Meters(7.0);
    let after = build_alignment_result(&results, SystemKind::Loco, SystemKind::Lighthouse);
    assert_eq!(after.shift_vector, before.shift_vector);
    assert_eq!(after.std_deviation, before.std_deviation);
    assert_eq!(after.points, before.points);
}

#[test]
fn exchanging_the_systems_negates_the_shift() {
    let results = [
        PointResult { point_index: 0, base: at(0.1, 6.3, 7.0), moving: at(1.7, 8.2, 7.0) },
        PointResult { point_index: 1, base: at(2.9, 0.4, 1.0), moving: at(0.3, 4.6, 2.2) },
        PointResult { point_index: 2, base: at(3.3, 0.7, 1.1), moving: at(0.2, 4.1, 2.7) },
    ];
    let exchanged: Vec<PointResult<Meters>> = results
        .iter()
        .map(|p| PointResult { point_index: p.point_index, base: p.moving, moving: p.base })
        .collect();
    let there = build_alignment_result(&results, SystemKind::Loco, SystemKind::Lighthouse);
    let back = build_alignment_result(&exchanged, SystemKind::Lighthouse, SystemKind::Loco);
    assert_eq!(back.shift_vector.x.0, -there.shift_vector.x.0);
    assert_eq!(back.shift_vector.y.0, -there.shift_vector.y.0);
    assert_eq!(back.shift_vector.z.0, -there.shift_vector.z.0);
    assert_eq!(back.std_deviation, there.std_deviation);
    assert_eq!(back.base_system, there.moving_system);
    assert_eq!(back.moving_system, there.base_system);
    assert_eq!(back.point_count, there.point_count);
}

#[test]
fn the_opposite_shift_gives_the_anchors_back() {
    let before = vec![
        (3, XyzValue { x: Meters(1.5), y: Meters(-2.0), z: Meters(0.25) }),
        (8, XyzValue { x: Meters(0.0), y: Meters(4.0), z: Meters(-8.0) }),
    ];
    let shift = XyzValue { x: Meters(0.5), y: Meters(-3.0), z: Meters(0.75) };
    let opposite = XyzValue { x: Meters(-0.5), y: Meters(3.0), z: Meters(-0.75) };
    let mut anchors = before.clone();
    shift_anchor_positions(&mut anchors, shift);
    assert_ne!(anchors, before);
    shift_anchor_positions(&mut anchors, opposite);
    assert_eq!(anchors, before);
    shift_anchor_positions(&mut anchors, XyzValue { x: Meters(0.0), y: Meters(0.0), z: Meters(0.0) });
    assert_eq!(anchors, before);
}

#[test]
fn deviation_of_a_role() {
    let mut p = PointResult { point_index: 0, base: at(0.0, 0.0, 0.0), moving: at(0.0, 0.0, 0.0) };
    p.base.std_x = Meters(3.0);
    p.base.std_y = Meters(4.0);
    p.moving.std_z = Meters(2.0);
    assert_eq!(p.total_std_of(Role::Base), Meters(5.0));
    assert_eq!(p.total_std_of(Role::Moving), Meters(2.0));
}

#[test]
fn deviation_is_shown_for_the_role_played() {
    let lighthouse = SystemKind::Lighthouse;
    let loco = SystemKind::Loco;
    assert_eq!(deviation_role(lighthouse, lighthouse, lighthouse), Some(Role::Base));
    assert_eq!(deviation_role(lighthouse, lighthouse, loco), Some(Role::Base));
    assert_eq!(deviation_role(lighthouse, loco, lighthouse), Some(Role::Moving));
    assert_eq!(deviation_role(lighthouse, loco, loco), None);
    assert_eq!(deviation_role(loco, loco, loco), Some(Role::Base));
    assert_eq!(deviation_role(loco, lighthouse, loco), Some(Role::Moving));
    assert_eq!(deviation_role(loco, lighthouse, lighthouse), None);
}

#[test]
fn anchors_move_by_the_shift() {
    let mut anchors = vec![
        (7, XyzValue { x: Meters(1.0), y: Meters(2.0), z: Meters(3.0) }),
        (-1, XyzValue { x: Meters(0.0), y: Meters(0.0), z: Meters(0.0) }),
    ];
    shift_anchor_positions(&mut anchors, XyzValue { x: Meters(0.5), y: Meters(-2.0), z: Meters(10.0) });
    assert_eq!(anchors[0], (7, XyzValue { x: Meters(1.5), y: Meters(0.0), z: Meters(13.0) }));
    assert_eq!(anchors[1], (-1, XyzValue { x: Meters(0.5), y: Meters(-2.0), z: Meters(10.0) }));
}

fn sample(t: u128, x: f32) -> LiveSample<Meters> {
    LiveSample { t, x: Meters(x), y: Meters(10.0 * x), z: Meters(0.0) }
}

#[test]
fn window_keeps_five_seconds() {
    assert_eq!(LIVE_WINDOW_NANOS, 5_000_000_000);
    assert_eq!(VIZ_GRID_RANGE, 8);
    let mut state = LiveState::new();
    push_live_sample(&mut state, sample(0, 1.0));
    push_live_sample(&mut state, sample(5_000_000_000, 2.0));
    assert_eq!(state.buffer.len(), 2);
    push_live_sample(&mut state, sample(5_000_000_001, 3.0));
    assert_eq!(state.buffer.len(), 2);
    assert_eq!(state.buffer[0].t, 5_000_000_000);
    push_live_sample(&mut state, sample(20_000_000_000, 4.0));
    assert_eq!(state.buffer.len(), 1);
    assert_eq!(latest_sample(&state), Some(sample(20_000_000_000, 4.0)));
    state.clear();
    assert_eq!(latest_sample(&state), None);
}

#[test]
fn window_holds_the_last_seconds() {
    let pushed: Vec<LiveSample<Meters>> =
        (0..20).map(|i| sample(i * 700_000_000, i as f32)).collect();
    let mut state = LiveState::new();
    for p in &pushed {
        push_live_sample(&mut state, *p);
    }
    let now = 19 * 700_000_000;
    let fresh: Vec<LiveSample<Meters>> =
        pushed.into_iter().filter(|p| now - p.t <= LIVE_WINDOW_NANOS).collect();
    assert_eq!(fresh.len(), 8);
    assert_eq!(state.buffer.into_iter().collect::<Vec<_>>(), fresh);
}

#[test]
fn every_stale_sample_is_dropped() {
    let mut state = LiveState::new();
    push_live_sample(&mut state, sample(6_000_000_000, 1.0));
    // An earlier time counts as no time elapsed.
    push_live_sample(&mut state, sample(0, 2.0));
    assert_eq!(state.buffer.len(), 2);
    // The second sample is stale, though it stands behind one that is not.
    push_live_sample(&mut state, sample(6_000_000_000, 3.0));
    assert_eq!(
        state.buffer.into_iter().collect::<Vec<_>>(),
        vec![sample(6_000_000_000, 1.0), sample(6_000_000_000, 3.0)]
    );
}

#[test]
fn live_deviations_are_those_of_a_capture() {
    let mut state = LiveState::new();
    let xs = [1.0, 2.0, 3.0];
    let ys = [-2.0, 0.0, 2.0];
    let zs = [5.0, 5.0, 5.0];
    for i in 0..3 {
        push_live_sample(
            &mut state,
            LiveSample { t: 7, x: Meters(xs[i]), y: Meters(ys[i]), z: Meters(zs[i]) },
        );
    }
    let stats = PositionStats::from_vecs(m(&xs), m(&ys), m(&zs));
    assert_eq!(live_std(&state), (stats.std_x, stats.std_y, stats.std_z));
    assert_eq!(live_std(&state), (Meters(1.0), Meters(2.0), Meters(0.0)));
}

#[test]
fn live_deviation_of_the_window() {
    let mut state = LiveState::new();
    assert_eq!(live_std(&state), (Meters(0.0), Meters(0.0), Meters(0.0)));
    push_live_sample(&mut state, sample(0, 1.0));
    assert_eq!(live_std(&state), (Meters(0.0), Meters(0.0), Meters(0.0)));
    push_live_sample(&mut state, sample(1, 3.0));
    assert_eq!(live_std(&state), (Meters(2.0f32.sqrt()), Meters(200.0f32.sqrt()), Meters(0.0)));
}

#[test]
fn tracking_pushes_and_measures() {
    let mut state = LiveState::new();
    let first = track_position(&mut state, 3, (Meters(1.0), Meters(2.0), Meters(3.0)));
    assert_eq!(first, (Meters(0.0), Meters(0.0), Meters(0.0)));
    let second = track_position(&mut state, 4, (Meters(3.0), Meters(2.0), Meters(3.0)));
    assert_eq!(second, (Meters(2.0f32.sqrt()), Meters(0.0), Meters(0.0)));
    assert_eq!(state.buffer.len(), 2);
}

#[test]
fn missing_coordinates_are_zero() {
    assert_eq!(
        packet_position(Some(Meters(1.0)), None, Some(Meters(3.0))),
        (Meters(1.0), Meters(0.0), Meters(3.0))
    );
}

#[test]
fn scene_shows_the_trail() {
    let mut state = LiveState::new();
    let empty = live_scene(&state, 1, 1).unwrap();
    assert_eq!(empty.current, None);
    assert!(empty.trail.is_empty());
    push_live_sample(&mut state, sample(0, 1.0));
    push_live_sample(&mut state, sample(1, 3.0));
    let scene = live_scene(&state, 640, 480).unwrap();
    assert_eq!(scene.trail, m(&[1.0, 10.0, 0.0, 3.0, 30.0, 0.0]));
    assert_eq!(
        scene.current,
        Some(XyzValue { x: Meters(3.0), y: Meters(30.0), z: Meters(0.0) })
    );
    assert!(live_scene(&state, 0, 480).is_none());
    assert!(live_scene(&state, 640, 0).is_none());
}

fn s(x: f32) -> SampleEvent<Meters> {
    SampleEvent::Sample(Meters(x), Meters(x), Meters(x))
}

#[test]
fn collecting_ends_with_enough_samples() {
    let mut c = Collector::new(2);
    assert!(c.wants_event(false));
    assert_eq!(c.receive(s(1.0), false), Received::Progress);
    assert_eq!(
        c.progress(),
        vec![UiUpdate::ProgressSamples(1), UiUpdate::TotalSamples(2)]
    );
    assert_eq!(c.receive(SampleEvent::Lagged, true), Received::Ignored);
    assert!(c.wants_event(false));
    assert_eq!(c.receive(s(3.0), true), Received::Progress);
    assert!(!c.wants_event(false));
    let stats = c.finish().unwrap();
    assert_eq!(stats.mean_x, Meters(2.0));
    assert_eq!(stats.std_z, Meters(2.0f32.sqrt()));
}

#[test]
fn a_stop_ends_collecting_with_what_there_is() {
    let mut c = Collector::new(10);
    assert_eq!(c.receive(s(1.0), false), Received::Progress);
    assert!(!c.wants_event(true));
    assert_eq!(c.receive(SampleEvent::TimedOut, true), Received::Finish);
    assert_eq!(c.finish().unwrap().mean_y, Meters(1.0));
}

#[test]
fn collecting_fails_when_the_stream_fails() {
    let mut c: Collector<Meters> = Collector::new(10);
    assert_eq!(
        c.receive(SampleEvent::Closed, true),
        Received::Fail(CollectError::LoggingStopped)
    );
    assert_eq!(
        c.receive(SampleEvent::TimedOut, false),
        Received::Fail(CollectError::TimedOut)
    );
    assert_eq!(c.finish(), Err(CollectError::NoSamples));
    assert_eq!(CollectError::LoggingStopped.message(), "Live position logging stopped");
    assert_eq!(
        CollectError::TimedOut.message(),
        "Timed out waiting for log data from the Crazyflie"
    );
    assert_eq!(CollectError::NoSamples.message(), "No samples collected");
}

#[test]
fn nothing_is_collected_where_nothing_is_wanted() {
    let c: Collector<Meters> = Collector::new(0);
    assert!(!c.wants_event(false));
    assert_eq!(c.finish(), Err(CollectError::NoSamples));
}
