//! Position statistics and the alignment computed from them.
//!
//! Coordinates are of any [`Scalar`] type `T`.
use crate::scalar::{
    are_turned, deviation_forgets_turns, deviation_is_exact, exact, exact_roots, is_mean,
    is_minus, is_plus, is_root, is_square, is_std, is_zero, mean, mean_is_exact, mean_turns,
    numbers, settled, square_forgets, stddev, total, turns_with, unturned, Scalar,
};
use crate::system::{label_names_its_system, Role, SystemKind};
use vstd::prelude::*;

verus! {

/// Means and standard deviations of the samples of one capture.
#[derive(Clone, Copy, Debug, PartialEq)]
pub struct PositionStats<T> {
    pub mean_x: T,
    pub mean_y: T,
    pub mean_z: T,
    pub std_x: T,
    pub std_y: T,
    pub std_z: T,
}

/// What both systems reported at one measurement point.
#[derive(Clone, Copy, Debug, PartialEq)]
pub struct PointResult<T> {
    pub point_index: usize,
    pub base: PositionStats<T>,
    pub moving: PositionStats<T>,
}

/// A position or a translation.
#[derive(Clone, Copy, Debug, PartialEq)]
pub struct XyzValue<T> {
    pub x: T,
    pub y: T,
    pub z: T,
}

/// One measurement point of an alignment report, numbered from one.
#[derive(Clone, Copy, Debug, PartialEq)]
pub struct PointResultYaml<T> {
    pub point: usize,
    pub base: XyzValue<T>,
    pub moving: XyzValue<T>,
    pub shift: XyzValue<T>,
}

/// An alignment report.
#[derive(Clone, Debug)]
pub struct AlignmentResult<T> {
    pub base_system: String,
    pub moving_system: String,
    /// The shift that lines the moving system's positions up with the base system.
    pub shift_vector: XyzValue<T>,
    pub std_deviation: XyzValue<T>,
    pub point_count: usize,
    pub points: Vec<PointResultYaml<T>>,
}

/// `r` is the Euclidean norm of (x, y, z).
pub open spec fn is_norm<T: Scalar>(x: T, y: T, z: T, r: T) -> bool {
    exists|xx: T, yy: T, zz: T, xy: T, all: T|
        #![trigger is_square(x, xx), is_square(y, yy), is_square(z, zz), is_plus(xx, yy, xy), is_plus(xy, zz, all)]
        is_square(x, xx) && is_square(y, yy) && is_square(z, zz) && is_plus(xx, yy, xy) && is_plus(
            xy,
            zz,
            all,
        ) && is_root(all, r)
}

impl<T: Scalar> PositionStats<T> {
    /// All six numbers are zero.
    pub open spec fn is_default(self) -> bool {
        &&& is_zero(self.mean_x)
        &&& is_zero(self.mean_y)
        &&& is_zero(self.mean_z)
        &&& is_zero(self.std_x)
        &&& is_zero(self.std_y)
        &&& is_zero(self.std_z)
    }

    /// The means and standard deviations of three lists of coordinates.
    pub open spec fn describes(self, xs: Seq<T>, ys: Seq<T>, zs: Seq<T>) -> bool {
        &&& is_mean(xs, self.mean_x)
        &&& is_mean(ys, self.mean_y)
        &&& is_mean(zs, self.mean_z)
        &&& is_std(xs, self.std_x)
        &&& is_std(ys, self.std_y)
        &&& is_std(zs, self.std_z)
    }

    /// The statistics of a capture with these coordinates.
    pub open spec fn is_stats_of(self, xs: Seq<T>, ys: Seq<T>, zs: Seq<T>) -> bool {
        if xs.len() == 0 {
            self.is_default()
        } else {
            self.describes(xs, ys, zs)
        }
    }

    /// The statistics of a capture, all zero if it has no samples.
    pub fn from_vecs(xs: Vec<T>, ys: Vec<T>, zs: Vec<T>) -> (r: Self)
        ensures
            r.is_stats_of(xs@, ys@, zs@),
    {
        if xs.len() == 0 {
            return PositionStats {
                mean_x: T::zero(),
                mean_y: T::zero(),
                mean_z: T::zero(),
                std_x: T::zero(),
                std_y: T::zero(),
                std_z: T::zero(),
            };
        }
        PositionStats {
            mean_x: mean(&xs),
            mean_y: mean(&ys),
            mean_z: mean(&zs),
            std_x: stddev(&xs),
            std_y: stddev(&ys),
            std_z: stddev(&zs),
        }
    }

    /// Combined (Euclidean norm) standard deviation across all three axes: a
    /// single number summarizing the spread of this capture's samples.
    pub fn total_std(&self) -> (r: T)
        ensures
            is_norm(self.std_x, self.std_y, self.std_z, r),
    {
        let xx = self.std_x.squared();
        let yy = self.std_y.squared();
        let zz = self.std_z.squared();
        let xy = xx.plus(yy);
        let all = xy.plus(zz);
        assert(is_square(self.std_x, xx) && is_square(self.std_y, yy) && is_square(self.std_z, zz)
            && is_plus(xx, yy, xy) && is_plus(xy, zz, all));
        all.root()
    }
}

impl<T: Copy> PositionStats<T> {
    pub open spec fn spec_mean(self) -> XyzValue<T> {
        XyzValue { x: self.mean_x, y: self.mean_y, z: self.mean_z }
    }

    /// The mean position.
    pub fn mean_position(&self) -> (r: XyzValue<T>)
        ensures
            r == self.spec_mean(),
    {
        XyzValue { x: self.mean_x, y: self.mean_y, z: self.mean_z }
    }
}

impl<T: Scalar> PointResult<T> {
    /// How far the base position is from the moving one along x.
    pub fn dx(&self) -> (r: T)
        ensures
            is_minus(self.base.mean_x, self.moving.mean_x, r),
    {
        self.base.mean_x.minus(self.moving.mean_x)
    }

    /// How far the base position is from the moving one along y.
    pub fn dy(&self) -> (r: T)
        ensures
            is_minus(self.base.mean_y, self.moving.mean_y, r),
    {
        self.base.mean_y.minus(self.moving.mean_y)
    }

    /// How far the base position is from the moving one along z.
    pub fn dz(&self) -> (r: T)
        ensures
            is_minus(self.base.mean_z, self.moving.mean_z, r),
    {
        self.base.mean_z.minus(self.moving.mean_z)
    }

    /// What the system in a role reported.
    pub open spec fn stats_of(self, role: Role) -> PositionStats<T> {
        match role {
            Role::Base => self.base,
            Role::Moving => self.moving,
        }
    }

    /// The combined standard deviation of the system in a role.
    pub fn total_std_of(&self, role: Role) -> (r: T)
        ensures
            ({
                let stats = self.stats_of(role);
                is_norm(stats.std_x, stats.std_y, stats.std_z, r)
            }),
    {
        match role {
            Role::Base => self.base.total_std(),
            Role::Moving => self.moving.total_std(),
        }
    }
}

/// `shift` is the base position less the moving one, axis by axis.
pub open spec fn is_point_shift<T: Scalar>(result: PointResult<T>, shift: XyzValue<T>) -> bool {
    &&& is_minus(result.base.mean_x, result.moving.mean_x, shift.x)
    &&& is_minus(result.base.mean_y, result.moving.mean_y, shift.y)
    &&& is_minus(result.base.mean_z, result.moving.mean_z, shift.z)
}

/// `point` reports `result`: its number, both mean positions and the shift
/// between them.
pub open spec fn reports_point<T: Scalar>(
    result: PointResult<T>,
    point: PointResultYaml<T>,
) -> bool {
    &&& point.point == result.point_index + 1
    &&& point.base == result.base.spec_mean()
    &&& point.moving == result.moving.spec_mean()
    &&& is_point_shift(result, point.shift)
}

/// The shifts of the points along x.
pub open spec fn shifts_x<T>(points: Seq<PointResultYaml<T>>) -> Seq<T> {
    points.map_values(|p: PointResultYaml<T>| p.shift.x)
}

/// The shifts of the points along y.
pub open spec fn shifts_y<T>(points: Seq<PointResultYaml<T>>) -> Seq<T> {
    points.map_values(|p: PointResultYaml<T>| p.shift.y)
}

/// The shifts of the points along z.
pub open spec fn shifts_z<T>(points: Seq<PointResultYaml<T>>) -> Seq<T> {
    points.map_values(|p: PointResultYaml<T>| p.shift.z)
}

/// `report` is the alignment report of the measured points: it names both
/// systems and gives the shift of every point, and along each axis the mean and
/// the standard deviation of those shifts.
pub open spec fn is_alignment<T: Scalar>(
    results: Seq<PointResult<T>>,
    base_kind: SystemKind,
    moving_kind: SystemKind,
    report: AlignmentResult<T>,
) -> bool {
    &&& report.base_system@ == base_kind.spec_label()
    &&& report.moving_system@ == moving_kind.spec_label()
    &&& report.point_count == results.len()
    &&& report.points@.len() == results.len()
    &&& forall|i: int|
        0 <= i < results.len() ==> reports_point(results[i], #[trigger] report.points@[i])
    &&& is_mean(shifts_x(report.points@), report.shift_vector.x)
    &&& is_mean(shifts_y(report.points@), report.shift_vector.y)
    &&& is_mean(shifts_z(report.points@), report.shift_vector.z)
    &&& is_std(shifts_x(report.points@), report.std_deviation.x)
    &&& is_std(shifts_y(report.points@), report.std_deviation.y)
    &&& is_std(shifts_z(report.points@), report.std_deviation.z)
}

/// Computes the alignment report of the measured points.
pub fn build_alignment_result<T: Scalar>(
    results: &[PointResult<T>],
    base_kind: SystemKind,
    moving_kind: SystemKind,
) -> (r: AlignmentResult<T>)
    requires
        forall|i: int|
            0 <= i < results@.len() ==> (#[trigger] results@[i]).point_index < usize::MAX,
    ensures
        is_alignment(results@, base_kind, moving_kind, r),
{
    let mut dxs: Vec<T> = Vec::new();
    let mut dys: Vec<T> = Vec::new();
    let mut dzs: Vec<T> = Vec::new();
    let mut points: Vec<PointResultYaml<T>> = Vec::new();
    let mut i: usize = 0;
    while i < results.len()
        invariant
            i <= results@.len(),
            forall|k: int|
                0 <= k < results@.len() ==> (#[trigger] results@[k]).point_index < usize::MAX,
            points@.len() == i,
            dxs@ == shifts_x(points@),
            dys@ == shifts_y(points@),
            dzs@ == shifts_z(points@),
            forall|k: int| 0 <= k < i ==> reports_point(results@[k], #[trigger] points@[k]),
        decreases results.len() - i,
    {
        let result = &results[i];
        let shift = XyzValue { x: result.dx(), y: result.dy(), z: result.dz() };
        dxs.push(shift.x);
        dys.push(shift.y);
        dzs.push(shift.z);
        points.push(
            PointResultYaml {
                point: result.point_index + 1,
                base: result.base.mean_position(),
                moving: result.moving.mean_position(),
                shift,
            },
        );
        i += 1;
    }
    AlignmentResult {
        base_system: base_kind.label().to_owned(),
        moving_system: moving_kind.label().to_owned(),
        shift_vector: XyzValue { x: mean(&dxs), y: mean(&dys), z: mean(&dzs) },
        std_deviation: XyzValue { x: stddev(&dxs), y: stddev(&dys), z: stddev(&dzs) },
        point_count: results.len(),
        points,
    }
}

/// What a run that has ended yields: the alignment report of its points, nothing
/// if it measured none.
pub fn alignment_of_run<T: Scalar>(
    results: &[PointResult<T>],
    base_kind: SystemKind,
    moving_kind: SystemKind,
) -> (r: Option<AlignmentResult<T>>)
    requires
        forall|i: int|
            0 <= i < results@.len() ==> (#[trigger] results@[i]).point_index < usize::MAX,
    ensures
        r is Some <==> results@.len() > 0,
        r is Some ==> is_alignment(results@, base_kind, moving_kind, r.unwrap()),
{
    if results.len() == 0 {
        None
    } else {
        Some(build_alignment_result(results, base_kind, moving_kind))
    }
}

pub open spec fn spec_deviation_role(
    system: SystemKind,
    base_kind: SystemKind,
    moving_kind: SystemKind,
) -> Option<Role> {
    if base_kind == system {
        Some(Role::Base)
    } else if moving_kind == system {
        Some(Role::Moving)
    } else {
        None
    }
}

/// Whose standard deviation is shown for `system`, whichever role it played:
/// the base's if the base is that system, else the moving one's if that is, else
/// none.
pub fn deviation_role(system: SystemKind, base_kind: SystemKind, moving_kind: SystemKind) -> (r:
    Option<Role>)
    ensures
        r == spec_deviation_role(system, base_kind, moving_kind),
{
    if base_kind == system {
        Some(Role::Base)
    } else if moving_kind == system {
        Some(Role::Moving)
    } else {
        None
    }
}

/// A report of points numbered from zero in order numbers them from one in
/// order.
pub proof fn points_are_numbered_from_one<T: Scalar>(
    results: Seq<PointResult<T>>,
    base_kind: SystemKind,
    moving_kind: SystemKind,
    report: AlignmentResult<T>,
    i: int,
)
    requires
        is_alignment(results, base_kind, moving_kind, report),
        forall|k: int| 0 <= k < results.len() ==> (#[trigger] results[k]).point_index == k,
        0 <= i < results.len(),
    ensures
        report.points@[i].point == i + 1,
{
    assert(reports_point(results[i], report.points@[i]));
}

/// Both lists have the same points with the same mean positions.
pub open spec fn same_means<T: Scalar>(
    results: Seq<PointResult<T>>,
    other: Seq<PointResult<T>>,
) -> bool {
    &&& other.len() == results.len()
    &&& forall|i: int| #![trigger results[i]] #![trigger other[i]]
        0 <= i < results.len() ==> {
            &&& other[i].point_index == results[i].point_index
            &&& other[i].base.spec_mean() == results[i].base.spec_mean()
            &&& other[i].moving.spec_mean() == results[i].moving.spec_mean()
        }
}

/// A report says nothing of how samples deviate inside a capture: what is a
/// report of some points is one of any points with the same means.
pub proof fn report_depends_on_the_means_only<T: Scalar>(
    results: Seq<PointResult<T>>,
    other: Seq<PointResult<T>>,
    base_kind: SystemKind,
    moving_kind: SystemKind,
    report: AlignmentResult<T>,
)
    requires
        same_means(results, other),
    ensures
        is_alignment(results, base_kind, moving_kind, report) <==> is_alignment(
            other,
            base_kind,
            moving_kind,
            report,
        ),
{
    assert forall|i: int| 0 <= i < results.len() && report.points@.len() == results.len() implies (
    reports_point(results[i], #[trigger] report.points@[i]) <==> reports_point(
        other[i],
        report.points@[i],
    )) by {
        assert(results[i].base.spec_mean() == other[i].base.spec_mean());
        assert(results[i].moving.spec_mean() == other[i].moving.spec_mean());
    }
    if is_alignment(results, base_kind, moving_kind, report) {
        assert forall|i: int| 0 <= i < other.len() implies reports_point(
            other[i],
            #[trigger] report.points@[i],
        ) by {
            assert(reports_point(results[i], report.points@[i]));
        }
    }
    if is_alignment(other, base_kind, moving_kind, report) {
        assert forall|i: int| 0 <= i < results.len() implies reports_point(
            results[i],
            #[trigger] report.points@[i],
        ) by {
            assert(reports_point(other[i], report.points@[i]));
        }
    }
}

/// What two numbers come to is the same, axis by axis.
pub open spec fn same_xyz<T, V>(
    value: spec_fn(T) -> V,
    a: XyzValue<T>,
    b: XyzValue<T>,
) -> bool {
    &&& value(a.x) == value(b.x)
    &&& value(a.y) == value(b.y)
    &&& value(a.z) == value(b.z)
}

/// Two reports of points with the same means name the same systems and list the
/// same points, and where every operation gives one result they come to the same
/// throughout. `value` is what a number comes to.
pub proof fn same_means_have_one_report<T: Scalar, V>(
    results: Seq<PointResult<T>>,
    other: Seq<PointResult<T>>,
    base_kind: SystemKind,
    moving_kind: SystemKind,
    report: AlignmentResult<T>,
    other_report: AlignmentResult<T>,
    value: spec_fn(T) -> V,
)
    requires
        same_means(results, other),
        is_alignment(results, base_kind, moving_kind, report),
        is_alignment(other, base_kind, moving_kind, other_report),
    ensures
        other_report.base_system@ == report.base_system@,
        other_report.moving_system@ == report.moving_system@,
        other_report.point_count == report.point_count,
        other_report.points@.len() == report.points@.len(),
        forall|i: int| #![trigger report.points@[i]] #![trigger other_report.points@[i]]
            0 <= i < report.points@.len() ==> {
                &&& other_report.points@[i].point == report.points@[i].point
                &&& other_report.points@[i].base == report.points@[i].base
                &&& other_report.points@[i].moving == report.points@[i].moving
                &&& settled(value) ==> same_xyz(
                    value,
                    other_report.points@[i].shift,
                    report.points@[i].shift,
                )
            },
        settled(value) ==> same_xyz(value, other_report.shift_vector, report.shift_vector)
            && same_xyz(value, other_report.std_deviation, report.std_deviation),
{
    let p = report.points@;
    let q = other_report.points@;
    report_depends_on_the_means_only(results, other, base_kind, moving_kind, other_report);
    assert forall|i: int| #![trigger p[i]] #![trigger q[i]] 0 <= i < p.len() implies {
        &&& q[i].point == p[i].point
        &&& q[i].base == p[i].base
        &&& q[i].moving == p[i].moving
        &&& settled(value) ==> same_xyz(value, q[i].shift, p[i].shift)
    } by {
        assert(reports_point(results[i], p[i]));
        assert(reports_point(results[i], q[i]));
    }
    if settled(value) {
        lemma_reports_turned(value, unturned(), report, other_report);
    }
}

/// `b` is `a` turned, axis by axis.
pub open spec fn turned_xyz<T, V>(
    value: spec_fn(T) -> V,
    turn: spec_fn(V) -> V,
    a: XyzValue<T>,
    b: XyzValue<T>,
) -> bool {
    &&& value(b.x) == turn(value(a.x))
    &&& value(b.y) == turn(value(a.y))
    &&& value(b.z) == turn(value(a.z))
}

/// The shift vector and the deviation are those of the listed points.
spec fn summarises<T: Scalar>(report: AlignmentResult<T>) -> bool {
    &&& is_mean(shifts_x(report.points@), report.shift_vector.x)
    &&& is_mean(shifts_y(report.points@), report.shift_vector.y)
    &&& is_mean(shifts_z(report.points@), report.shift_vector.z)
    &&& is_std(shifts_x(report.points@), report.std_deviation.x)
    &&& is_std(shifts_y(report.points@), report.std_deviation.y)
    &&& is_std(shifts_z(report.points@), report.std_deviation.z)
}

proof fn lemma_reports_turned<T: Scalar, V>(
    value: spec_fn(T) -> V,
    turn: spec_fn(V) -> V,
    report: AlignmentResult<T>,
    other: AlignmentResult<T>,
)
    requires
        settled(value),
        turns_with(value, turn),
        square_forgets(value, turn),
        summarises(report),
        summarises(other),
        other.points@.len() == report.points@.len(),
        forall|i: int| #![trigger report.points@[i]] #![trigger other.points@[i]]
            0 <= i < report.points@.len() ==> turned_xyz(
                value,
                turn,
                report.points@[i].shift,
                other.points@[i].shift,
            ),
    ensures
        turned_xyz(value, turn, report.shift_vector, other.shift_vector),
        same_xyz(value, other.std_deviation, report.std_deviation),
{
    let p = report.points@;
    let q = other.points@;
    assert forall|i: int| #![trigger shifts_x(p)[i]] #![trigger shifts_x(q)[i]]
        0 <= i < p.len() implies value(shifts_x(q)[i]) == turn(value(shifts_x(p)[i])) by {
        assert(shifts_x(q)[i] == q[i].shift.x);
    }
    assert forall|i: int| #![trigger shifts_y(p)[i]] #![trigger shifts_y(q)[i]]
        0 <= i < p.len() implies value(shifts_y(q)[i]) == turn(value(shifts_y(p)[i])) by {
        assert(shifts_y(q)[i] == q[i].shift.y);
    }
    assert forall|i: int| #![trigger shifts_z(p)[i]] #![trigger shifts_z(q)[i]]
        0 <= i < p.len() implies value(shifts_z(q)[i]) == turn(value(shifts_z(p)[i])) by {
        assert(shifts_z(q)[i] == q[i].shift.z);
    }
    lemma_axis_turned(
        value,
        turn,
        shifts_x(p),
        shifts_x(q),
        report.shift_vector.x,
        other.shift_vector.x,
        report.std_deviation.x,
        other.std_deviation.x,
    );
    lemma_axis_turned(
        value,
        turn,
        shifts_y(p),
        shifts_y(q),
        report.shift_vector.y,
        other.shift_vector.y,
        report.std_deviation.y,
        other.std_deviation.y,
    );
    lemma_axis_turned(
        value,
        turn,
        shifts_z(p),
        shifts_z(q),
        report.shift_vector.z,
        other.shift_vector.z,
        report.std_deviation.z,
        other.std_deviation.z,
    );
}

proof fn lemma_axis_turned<T: Scalar, V>(
    value: spec_fn(T) -> V,
    turn: spec_fn(V) -> V,
    shifts: Seq<T>,
    turned: Seq<T>,
    m: T,
    n: T,
    d: T,
    e: T,
)
    requires
        settled(value),
        turns_with(value, turn),
        square_forgets(value, turn),
        are_turned(value, turn, shifts, turned),
        is_mean(shifts, m),
        is_mean(turned, n),
        is_std(shifts, d),
        is_std(turned, e),
    ensures
        value(n) == turn(value(m)),
        value(e) == value(d),
{
    mean_turns(value, turn, shifts, turned, m, n);
    deviation_forgets_turns(value, turn, shifts, turned, d, e);
}

/// The points with base and moving system exchanged.
pub open spec fn exchanged<T>(results: Seq<PointResult<T>>) -> Seq<PointResult<T>> {
    results.map_values(
        |r: PointResult<T>|
            PointResult { point_index: r.point_index, base: r.moving, moving: r.base },
    )
}

/// Arithmetic knows no direction: `value` is what a number stands for, `neg`
/// changes its sign, a difference the other way round is the negative, sums and
/// parts of negatives are negatives, and a square forgets the sign. Rounding to
/// the nearest obeys this.
pub open spec fn knows_no_direction<T: Scalar, V>(
    value: spec_fn(T) -> V,
    neg: spec_fn(V) -> V,
) -> bool {
    &&& settled(value)
    &&& turns_with(value, neg)
    &&& square_forgets(value, neg)
    &&& forall|a: T, b: T, r: T, s: T| #[trigger]
        is_minus(a, b, r) && #[trigger] is_minus(b, a, s) ==> value(s) == neg(value(r))
}

/// Exchanging base and moving system exchanges their names and, at every point,
/// their positions, and takes every difference the other way round; where
/// arithmetic knows no direction, it negates the shift and keeps its deviation.
pub proof fn exchanging_the_systems_negates_the_shift<T: Scalar, V>(
    value: spec_fn(T) -> V,
    neg: spec_fn(V) -> V,
    results: Seq<PointResult<T>>,
    base_kind: SystemKind,
    moving_kind: SystemKind,
    report: AlignmentResult<T>,
    back: AlignmentResult<T>,
)
    requires
        is_alignment(results, base_kind, moving_kind, report),
        is_alignment(exchanged(results), moving_kind, base_kind, back),
    ensures
        back.base_system@ == report.moving_system@,
        back.moving_system@ == report.base_system@,
        back.point_count == report.point_count,
        back.points@.len() == report.points@.len(),
        forall|i: int| #![trigger report.points@[i]] #![trigger back.points@[i]]
            0 <= i < report.points@.len() ==> {
                let there = report.points@[i];
                let again = back.points@[i];
                &&& again.point == there.point
                &&& again.base == there.moving
                &&& again.moving == there.base
                &&& is_minus(there.moving.x, there.base.x, again.shift.x)
                &&& is_minus(there.moving.y, there.base.y, again.shift.y)
                &&& is_minus(there.moving.z, there.base.z, again.shift.z)
                &&& knows_no_direction(value, neg) ==> turned_xyz(
                    value,
                    neg,
                    there.shift,
                    again.shift,
                )
            },
        knows_no_direction(value, neg) ==> turned_xyz(
            value,
            neg,
            report.shift_vector,
            back.shift_vector,
        ) && same_xyz(value, back.std_deviation, report.std_deviation),
{
    let p = report.points@;
    let q = back.points@;
    assert forall|i: int| #![trigger p[i]] #![trigger q[i]] 0 <= i < p.len() implies {
        &&& q[i].point == p[i].point
        &&& q[i].base == p[i].moving
        &&& q[i].moving == p[i].base
        &&& is_minus(p[i].moving.x, p[i].base.x, q[i].shift.x)
        &&& is_minus(p[i].moving.y, p[i].base.y, q[i].shift.y)
        &&& is_minus(p[i].moving.z, p[i].base.z, q[i].shift.z)
        &&& knows_no_direction(value, neg) ==> turned_xyz(value, neg, p[i].shift, q[i].shift)
    } by {
        assert(reports_point(results[i], p[i]));
        assert(reports_point(exchanged(results)[i], q[i]));
    }
    if knows_no_direction(value, neg) {
        lemma_reports_turned(value, neg, report, back);
    }
}

/// How far the base is from the moving system along x at every point.
pub open spec fn gaps_x<T>(value: spec_fn(T) -> real, results: Seq<PointResult<T>>) -> Seq<real> {
    results.map_values(|r: PointResult<T>| value(r.base.mean_x) - value(r.moving.mean_x))
}

/// How far the base is from the moving system along y at every point.
pub open spec fn gaps_y<T>(value: spec_fn(T) -> real, results: Seq<PointResult<T>>) -> Seq<real> {
    results.map_values(|r: PointResult<T>| value(r.base.mean_y) - value(r.moving.mean_y))
}

/// How far the base is from the moving system along z at every point.
pub open spec fn gaps_z<T>(value: spec_fn(T) -> real, results: Seq<PointResult<T>>) -> Seq<real> {
    results.map_values(|r: PointResult<T>| value(r.base.mean_z) - value(r.moving.mean_z))
}

/// The sum of the squared distances of some numbers from `t`.
pub open spec fn spread(numbers: Seq<real>, t: real) -> real
    decreases numbers.len(),
{
    if numbers.len() == 0 {
        0 as real
    } else {
        spread(numbers.drop_last(), t) + (numbers.last() - t) * (numbers.last() - t)
    }
}

/// What is left between the systems after the moving one is moved by a
/// translation: the sum of the squared distances over all points.
pub open spec fn misfit<T>(
    value: spec_fn(T) -> real,
    results: Seq<PointResult<T>>,
    x: real,
    y: real,
    z: real,
) -> real {
    spread(gaps_x(value, results), x) + spread(gaps_y(value, results), y) + spread(
        gaps_z(value, results),
        z,
    )
}

proof fn lemma_spread(numbers: Seq<real>, m: real, t: real)
    ensures
        spread(numbers, t) == spread(numbers, m) + 2 as real * ((m - t) * (total(numbers)
            - numbers.len() as real * m)) + numbers.len() as real * ((m - t) * (m - t)),
    decreases numbers.len(),
{
    if numbers.len() > 0 {
        let front = numbers.drop_last();
        let a = numbers.last();
        let k = front.len() as real;
        let s = total(front);
        lemma_spread(front, m, t);
        assert(numbers.len() as real == k + 1 as real);
        assert((a - t) * (a - t) == (a - m) * (a - m) + 2 as real * ((m - t) * (a - m)) + (m - t)
            * (m - t)) by (nonlinear_arith);
        assert((m - t) * ((s + a) - (k + 1 as real) * m) == (m - t) * (s - k * m) + (m - t) * (a
            - m)) by (nonlinear_arith);
        assert((k + 1 as real) * ((m - t) * (m - t)) == k * ((m - t) * (m - t)) + (m - t) * (m
            - t)) by (nonlinear_arith);
    } else {
        assert((m - t) * (0 as real - 0 as real * m) == 0 as real) by (nonlinear_arith);
        assert(0 as real * ((m - t) * (m - t)) == 0 as real) by (nonlinear_arith);
    }
}

proof fn lemma_mean_has_least_spread(numbers: Seq<real>, m: real, t: real)
    requires
        numbers.len() > 0,
        numbers.len() as real * m == total(numbers),
    ensures
        spread(numbers, m) <= spread(numbers, t),
        spread(numbers, m) == spread(numbers, t) ==> t == m,
{
    let n = numbers.len() as real;
    lemma_spread(numbers, m, t);
    assert(total(numbers) - n * m == 0 as real);
    assert((m - t) * (0 as real) == 0 as real) by (nonlinear_arith);
    assert(n >= 1 as real);
    assert(n * ((m - t) * (m - t)) >= 0 as real) by (nonlinear_arith)
        requires
            n >= 1 as real,
    ;
    if t != m {
        let d = m - t;
        assert(d * d > 0 as real) by (nonlinear_arith)
            requires
                d != 0 as real,
        ;
        assert(n * (d * d) > 0 as real) by (nonlinear_arith)
            requires
                n >= 1 as real,
                d * d > 0 as real,
        ;
    }
}

/// Where arithmetic is exact, the shift along each axis is the mean gap.
pub proof fn shift_is_the_mean_gap<T: Scalar>(
    value: spec_fn(T) -> real,
    results: Seq<PointResult<T>>,
    base_kind: SystemKind,
    moving_kind: SystemKind,
    report: AlignmentResult<T>,
)
    requires
        exact(value),
        results.len() > 0,
        is_alignment(results, base_kind, moving_kind, report),
    ensures
        results.len() as real * value(report.shift_vector.x) == total(gaps_x(value, results)),
        results.len() as real * value(report.shift_vector.y) == total(gaps_y(value, results)),
        results.len() as real * value(report.shift_vector.z) == total(gaps_z(value, results)),
{
    let p = report.points@;
    assert forall|i: int| 0 <= i < p.len() implies is_point_shift(
        results[i],
        (#[trigger] p[i]).shift,
    ) by {
        assert(reports_point(results[i], p[i]));
    }
    mean_is_exact(value, shifts_x(p), report.shift_vector.x);
    mean_is_exact(value, shifts_y(p), report.shift_vector.y);
    mean_is_exact(value, shifts_z(p), report.shift_vector.z);
    assert(numbers(value, shifts_x(p)) =~= gaps_x(value, results));
    assert(numbers(value, shifts_y(p)) =~= gaps_y(value, results));
    assert(numbers(value, shifts_z(p)) =~= gaps_z(value, results));
}

/// Where arithmetic is exact, the shift is the translation that brings the moving
/// system closest to the base: any other leaves a larger sum of squared
/// distances over the points.
pub proof fn shift_is_the_closest_translation<T: Scalar>(
    value: spec_fn(T) -> real,
    results: Seq<PointResult<T>>,
    base_kind: SystemKind,
    moving_kind: SystemKind,
    report: AlignmentResult<T>,
    x: real,
    y: real,
    z: real,
)
    requires
        exact(value),
        results.len() > 0,
        is_alignment(results, base_kind, moving_kind, report),
    ensures
        ({
            let shift = report.shift_vector;
            let least = misfit(value, results, value(shift.x), value(shift.y), value(shift.z));
            &&& least <= misfit(value, results, x, y, z)
            &&& least == misfit(value, results, x, y, z) ==> (x, y, z) == (
                value(shift.x),
                value(shift.y),
                value(shift.z),
            )
        }),
{
    let shift = report.shift_vector;
    shift_is_the_mean_gap(value, results, base_kind, moving_kind, report);
    lemma_mean_has_least_spread(gaps_x(value, results), value(shift.x), x);
    lemma_mean_has_least_spread(gaps_y(value, results), value(shift.y), y);
    lemma_mean_has_least_spread(gaps_z(value, results), value(shift.z), z);
}

/// Where arithmetic is exact, the statistics of a capture are those of its
/// samples, axis by axis: the number of samples times the mean is the sum of the
/// samples along that axis, and the squared deviation, times one less than that
/// number, is the sum of their squared distances from the mean.
pub proof fn capture_statistics_are_those_of_its_samples<T: Scalar>(
    value: spec_fn(T) -> real,
    xs: Vec<T>,
    ys: Vec<T>,
    zs: Vec<T>,
    r: PositionStats<T>,
)
    requires
        exact(value),
        exact_roots(value),
        xs@.len() > 0,
        ys@.len() == xs@.len(),
        zs@.len() == xs@.len(),
        call_ensures(PositionStats::<T>::from_vecs, (xs, ys, zs), r),
    ensures
        ({
            let n = xs@.len();
            let x = numbers(value, xs@);
            let y = numbers(value, ys@);
            let z = numbers(value, zs@);
            &&& n as real * value(r.mean_x) == total(x)
            &&& n as real * value(r.mean_y) == total(y)
            &&& n as real * value(r.mean_z) == total(z)
            &&& is_deviation(x, value(r.mean_x), value(r.std_x))
            &&& is_deviation(y, value(r.mean_y), value(r.std_y))
            &&& is_deviation(z, value(r.mean_z), value(r.std_z))
        }),
{
    assert(xs@.len() == xs.len() && ys@.len() == ys.len() && zs@.len() == zs.len());
    mean_is_exact(value, xs@, r.mean_x);
    mean_is_exact(value, ys@, r.mean_y);
    mean_is_exact(value, zs@, r.mean_z);
    deviation_is_exact(value, xs@, value(r.mean_x), r.std_x);
    deviation_is_exact(value, ys@, value(r.mean_y), r.std_y);
    deviation_is_exact(value, zs@, value(r.mean_z), r.std_z);
}

/// Without samples all statistics of a capture are zero.
pub proof fn statistics_of_no_samples_are_zero<T: Scalar>(
    value: spec_fn(T) -> real,
    xs: Vec<T>,
    ys: Vec<T>,
    zs: Vec<T>,
    r: PositionStats<T>,
)
    requires
        exact_roots(value),
        xs@.len() == 0,
        call_ensures(PositionStats::<T>::from_vecs, (xs, ys, zs), r),
    ensures
        value(r.mean_x) == 0 as real,
        value(r.mean_y) == 0 as real,
        value(r.mean_z) == 0 as real,
        value(r.std_x) == 0 as real,
        value(r.std_y) == 0 as real,
        value(r.std_z) == 0 as real,
{
}

/// `d` is the sample standard deviation of some numbers with mean `m`.
pub open spec fn is_deviation(numbers: Seq<real>, m: real, d: real) -> bool {
    &&& d >= 0 as real
    &&& numbers.len() < 2 ==> d == 0 as real
    &&& numbers.len() >= 2 ==> (numbers.len() - 1) as real * (d * d) == spread(numbers, m)
}

proof fn lemma_equal_numbers_do_not_deviate(numbers: Seq<real>, m: real, d: real)
    requires
        is_deviation(numbers, m, d),
        forall|i: int| 0 <= i < numbers.len() ==> #[trigger] numbers[i] == m,
    ensures
        d == 0 as real,
{
    if numbers.len() >= 2 {
        lemma_no_spread(numbers, m);
        let k = (numbers.len() - 1) as real;
        assert(d == 0 as real) by (nonlinear_arith)
            requires
                k >= 1 as real,
                k * (d * d) == 0 as real,
        ;
    }
}

proof fn lemma_no_spread(numbers: Seq<real>, m: real)
    requires
        forall|i: int| 0 <= i < numbers.len() ==> #[trigger] numbers[i] == m,
    ensures
        spread(numbers, m) == 0 as real,
    decreases numbers.len(),
{
    if numbers.len() > 0 {
        let front = numbers.drop_last();
        assert forall|i: int| 0 <= i < front.len() implies #[trigger] front[i] == m by {
            assert(front[i] == numbers[i]);
        }
        assert(numbers[numbers.len() - 1] == m);
        lemma_no_spread(front, m);
        assert((0 as real) * (0 as real) == 0 as real) by (nonlinear_arith);
    }
}

/// Where arithmetic is exact, a report gives along each axis the mean gap between
/// the systems, base less moving, and how the gaps along that axis deviate from
/// it; an axis along which all gaps are equal has deviation zero.
pub proof fn report_gives_the_gaps_and_their_deviation<T: Scalar>(
    value: spec_fn(T) -> real,
    results: &[PointResult<T>],
    base_kind: SystemKind,
    moving_kind: SystemKind,
    report: AlignmentResult<T>,
)
    requires
        exact(value),
        exact_roots(value),
        results@.len() > 0,
        call_ensures(build_alignment_result::<T>, (results, base_kind, moving_kind), report),
    ensures
        ({
            let n = results@.len() as real;
            let x = gaps_x(value, results@);
            let y = gaps_y(value, results@);
            let z = gaps_z(value, results@);
            let shift = report.shift_vector;
            let deviation = report.std_deviation;
            &&& n * value(shift.x) == total(x)
            &&& n * value(shift.y) == total(y)
            &&& n * value(shift.z) == total(z)
            &&& is_deviation(x, value(shift.x), value(deviation.x))
            &&& is_deviation(y, value(shift.y), value(deviation.y))
            &&& is_deviation(z, value(shift.z), value(deviation.z))
            &&& all_alike(x) ==> value(deviation.x) == 0 as real
            &&& all_alike(y) ==> value(deviation.y) == 0 as real
            &&& all_alike(z) ==> value(deviation.z) == 0 as real
        }),
{
    let shift = report.shift_vector;
    let deviation = report.std_deviation;
    shift_is_the_mean_gap(value, results@, base_kind, moving_kind, report);
    lemma_gaps_deviate(value, results@, base_kind, moving_kind, report);
    lemma_alike_do_not_deviate(gaps_x(value, results@), value(shift.x), value(deviation.x));
    lemma_alike_do_not_deviate(gaps_y(value, results@), value(shift.y), value(deviation.y));
    lemma_alike_do_not_deviate(gaps_z(value, results@), value(shift.z), value(deviation.z));
}

proof fn lemma_gaps_deviate<T: Scalar>(
    value: spec_fn(T) -> real,
    results: Seq<PointResult<T>>,
    base_kind: SystemKind,
    moving_kind: SystemKind,
    report: AlignmentResult<T>,
)
    requires
        exact(value),
        exact_roots(value),
        results.len() > 0,
        is_alignment(results, base_kind, moving_kind, report),
    ensures
        ({
            let shift = report.shift_vector;
            let deviation = report.std_deviation;
            &&& is_deviation(gaps_x(value, results), value(shift.x), value(deviation.x))
            &&& is_deviation(gaps_y(value, results), value(shift.y), value(deviation.y))
            &&& is_deviation(gaps_z(value, results), value(shift.z), value(deviation.z))
        }),
{
    let shift = report.shift_vector;
    let deviation = report.std_deviation;
    let p = report.points@;
    shift_is_the_mean_gap(value, results, base_kind, moving_kind, report);
    assert forall|i: int| 0 <= i < p.len() implies is_point_shift(
        results[i],
        (#[trigger] p[i]).shift,
    ) by {
        assert(reports_point(results[i], p[i]));
    }
    assert(numbers(value, shifts_x(p)) =~= gaps_x(value, results));
    assert(numbers(value, shifts_y(p)) =~= gaps_y(value, results));
    assert(numbers(value, shifts_z(p)) =~= gaps_z(value, results));
    deviation_is_exact(value, shifts_x(p), value(shift.x), deviation.x);
    deviation_is_exact(value, shifts_y(p), value(shift.y), deviation.y);
    deviation_is_exact(value, shifts_z(p), value(shift.z), deviation.z);
}

/// Any two of the numbers are equal.
pub open spec fn all_alike(numbers: Seq<real>) -> bool {
    forall|i: int, j: int|
        0 <= i < numbers.len() && 0 <= j < numbers.len() ==> numbers[i] == numbers[j]
}

proof fn lemma_alike_do_not_deviate(numbers: Seq<real>, m: real, d: real)
    requires
        numbers.len() > 0,
        numbers.len() as real * m == total(numbers),
        is_deviation(numbers, m, d),
    ensures
        all_alike(numbers) ==> d == 0 as real,
{
    if all_alike(numbers) {
        let a = numbers[0];
        lemma_total_of_alike(numbers, a);
        let n = numbers.len() as real;
        assert(m == a) by (nonlinear_arith)
            requires
                n >= 1 as real,
                n * m == n * a,
        ;
        lemma_equal_numbers_do_not_deviate(numbers, m, d);
    }
}

proof fn lemma_total_of_alike(numbers: Seq<real>, a: real)
    requires
        forall|i: int| 0 <= i < numbers.len() ==> #[trigger] numbers[i] == a,
    ensures
        total(numbers) == numbers.len() as real * a,
    decreases numbers.len(),
{
    if numbers.len() > 0 {
        let front = numbers.drop_last();
        assert(numbers[numbers.len() - 1] == a);
        lemma_total_of_alike(front, a);
        let k = front.len() as real;
        assert(numbers.len() as real == k + 1 as real);
        assert((k + 1 as real) * a == k * a + a) by (nonlinear_arith);
    } else {
        assert(0 as real * a == 0 as real) by (nonlinear_arith);
    }
}

/// A report lists the points in order, each with its number and with what each
/// system measured there, coordinate by coordinate, and counts them; where
/// arithmetic is exact, the shift of a point moves what the moving system
/// measured to what the base measured.
pub proof fn report_lists_what_was_measured<T: Scalar>(
    value: spec_fn(T) -> real,
    results: &[PointResult<T>],
    base_kind: SystemKind,
    moving_kind: SystemKind,
    report: AlignmentResult<T>,
    i: int,
)
    requires
        call_ensures(build_alignment_result::<T>, (results, base_kind, moving_kind), report),
        0 <= i < results@.len(),
    ensures
        report.point_count == results@.len(),
        report.points@.len() == results@.len(),
        report.points@[i].point == results@[i].point_index + 1,
        report.points@[i].base.x == results@[i].base.mean_x,
        report.points@[i].base.y == results@[i].base.mean_y,
        report.points@[i].base.z == results@[i].base.mean_z,
        report.points@[i].moving.x == results@[i].moving.mean_x,
        report.points@[i].moving.y == results@[i].moving.mean_y,
        report.points@[i].moving.z == results@[i].moving.mean_z,
        exact(value) ==> {
            let point = report.points@[i];
            &&& value(point.moving.x) + value(point.shift.x) == value(point.base.x)
            &&& value(point.moving.y) + value(point.shift.y) == value(point.base.y)
            &&& value(point.moving.z) + value(point.shift.z) == value(point.base.z)
        },
{
    assert(reports_point(results@[i], report.points@[i]));
}

/// The names of the systems in a report read back as the systems.
pub proof fn report_names_the_systems<T: Scalar>(
    results: &[PointResult<T>],
    base_kind: SystemKind,
    moving_kind: SystemKind,
    report: AlignmentResult<T>,
    base_name: &str,
    moving_name: &str,
    base_read: SystemKind,
    moving_read: SystemKind,
)
    requires
        call_ensures(build_alignment_result::<T>, (results, base_kind, moving_kind), report),
        base_name@ == report.base_system@,
        moving_name@ == report.moving_system@,
        call_ensures(SystemKind::from_label, (base_name,), base_read),
        call_ensures(SystemKind::from_label, (moving_name,), moving_read),
    ensures
        base_read == base_kind,
        moving_read == moving_kind,
{
    label_names_its_system(base_kind, base_name@);
    label_names_its_system(moving_kind, moving_name@);
}

/// A run that measured points has the report of those points, and one that
/// measured none has no report.
pub proof fn run_has_the_report_of_its_points<T: Scalar>(
    value: spec_fn(T) -> real,
    results: &[PointResult<T>],
    base_kind: SystemKind,
    moving_kind: SystemKind,
    r: Option<AlignmentResult<T>>,
)
    requires
        call_ensures(alignment_of_run::<T>, (results, base_kind, moving_kind), r),
    ensures
        r is None <==> results@.len() == 0,
        r is Some && exact(value) ==> {
            let shift = r.unwrap().shift_vector;
            &&& results@.len() as real * value(shift.x) == total(gaps_x(value, results@))
            &&& results@.len() as real * value(shift.y) == total(gaps_y(value, results@))
            &&& results@.len() as real * value(shift.z) == total(gaps_z(value, results@))
        },
        r is Some && exact(value) && exact_roots(value) ==> {
            let shift = r.unwrap().shift_vector;
            let deviation = r.unwrap().std_deviation;
            &&& is_deviation(gaps_x(value, results@), value(shift.x), value(deviation.x))
            &&& is_deviation(gaps_y(value, results@), value(shift.y), value(deviation.y))
            &&& is_deviation(gaps_z(value, results@), value(shift.z), value(deviation.z))
        },
        r is Some ==> {
            &&& r.unwrap().point_count == results@.len()
            &&& r.unwrap().base_system@ == base_kind.spec_label()
            &&& r.unwrap().moving_system@ == moving_kind.spec_label()
        },
{
    if r is Some && exact(value) {
        shift_is_the_mean_gap(value, results@, base_kind, moving_kind, r.unwrap());
        if exact_roots(value) {
            lemma_gaps_deviate(value, results@, base_kind, moving_kind, r.unwrap());
        }
    }
}

/// Where arithmetic is exact, the combined deviation is the length of the vector
/// of the three deviations.
pub proof fn combined_deviation_is_a_length<T: Scalar>(
    value: spec_fn(T) -> real,
    stats: &PositionStats<T>,
    r: T,
)
    requires
        exact(value),
        exact_roots(value),
        call_ensures(PositionStats::<T>::total_std, (stats,), r),
    ensures
        is_length(value(stats.std_x), value(stats.std_y), value(stats.std_z), value(r)),
{
    lemma_norm_is_length(value, stats.std_x, stats.std_y, stats.std_z, r);
}

/// The combined deviation for a role is that of the system in that role.
pub proof fn combined_deviation_of_a_role<T: Scalar>(
    value: spec_fn(T) -> real,
    result: &PointResult<T>,
    of_base: T,
    of_moving: T,
)
    requires
        exact(value),
        exact_roots(value),
        call_ensures(PointResult::<T>::total_std_of, (result, Role::Base), of_base),
        call_ensures(PointResult::<T>::total_std_of, (result, Role::Moving), of_moving),
    ensures
        is_length(
            value(result.base.std_x),
            value(result.base.std_y),
            value(result.base.std_z),
            value(of_base),
        ),
        is_length(
            value(result.moving.std_x),
            value(result.moving.std_y),
            value(result.moving.std_z),
            value(of_moving),
        ),
{
    let base = result.base;
    let moving = result.moving;
    lemma_norm_is_length(value, base.std_x, base.std_y, base.std_z, of_base);
    lemma_norm_is_length(value, moving.std_x, moving.std_y, moving.std_z, of_moving);
}

/// `r` is the length of the vector (x, y, z).
pub open spec fn is_length(x: real, y: real, z: real, r: real) -> bool {
    r >= 0 as real && r * r == x * x + y * y + z * z
}

proof fn lemma_norm_is_length<T: Scalar>(value: spec_fn(T) -> real, x: T, y: T, z: T, r: T)
    requires
        exact(value),
        exact_roots(value),
        is_norm(x, y, z, r),
    ensures
        is_length(value(x), value(y), value(z), value(r)),
{
    let (xx, yy, zz, xy, all) = choose|xx: T, yy: T, zz: T, xy: T, all: T|
        #![trigger is_square(x, xx), is_square(y, yy), is_square(z, zz), is_plus(xx, yy, xy), is_plus(xy, zz, all)]
        is_square(x, xx) && is_square(y, yy) && is_square(z, zz) && is_plus(xx, yy, xy) && is_plus(
            xy,
            zz,
            all,
        ) && is_root(all, r);
    let (a, b, c) = (value(x), value(y), value(z));
    assert(a * a >= 0 as real) by (nonlinear_arith);
    assert(b * b >= 0 as real) by (nonlinear_arith);
    assert(c * c >= 0 as real) by (nonlinear_arith);
    assert(value(all) == a * a + b * b + c * c);
}

/// Where arithmetic is exact, the three gaps at a point are base less moving,
/// each along its own axis.
pub proof fn gaps_are_base_less_moving<T: Scalar>(
    value: spec_fn(T) -> real,
    result: &PointResult<T>,
    x: T,
    y: T,
    z: T,
)
    requires
        exact(value),
        call_ensures(PointResult::<T>::dx, (result,), x),
        call_ensures(PointResult::<T>::dy, (result,), y),
        call_ensures(PointResult::<T>::dz, (result,), z),
    ensures
        value(x) == value(result.base.mean_x) - value(result.moving.mean_x),
        value(y) == value(result.base.mean_y) - value(result.moving.mean_y),
        value(z) == value(result.base.mean_z) - value(result.moving.mean_z),
{
}

/// A deviation is shown for a system exactly if it took part, and then for a role
/// that it played; the base's is preferred.
pub proof fn deviation_is_of_the_system(
    system: SystemKind,
    base_kind: SystemKind,
    moving_kind: SystemKind,
    r: Option<Role>,
)
    requires
        call_ensures(deviation_role, (system, base_kind, moving_kind), r),
    ensures
        r is Some <==> base_kind == system || moving_kind == system,
        r == Some(Role::Base) <==> base_kind == system,
        r == Some(Role::Moving) ==> moving_kind == system,
{
}

} // verus!
