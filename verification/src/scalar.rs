//! Arithmetic on coordinates, and the statistics built from it.
//!
//! What a coordinate is, and how two of them are added, is left to the type that
//! stands for it: [`Scalar`] lists the operations and promises nothing of them.
//! The statistics are stated as which operations are applied to which values,
//! and in what order.
use crate::stats::spread;
use vstd::prelude::*;

verus! {

/// A number that positions are measured in.
pub trait Scalar: Copy {
    /// Zero.
    fn zero() -> Self;

    /// The sum of no values, from which summing begins.
    fn empty_sum() -> Self;

    /// The sum of two values.
    fn plus(self, other: Self) -> Self;

    /// The difference of two values.
    fn minus(self, other: Self) -> Self;

    /// The square.
    fn squared(self) -> Self;

    /// The `n`-th part.
    fn divided_by(self, n: usize) -> Self;

    /// The square root.
    fn root(self) -> Self;
}

/// `r` is zero.
pub open spec fn is_zero<T: Scalar>(r: T) -> bool {
    call_ensures(T::zero, (), r)
}

/// `r` is the sum of no values.
pub open spec fn is_empty_sum<T: Scalar>(r: T) -> bool {
    call_ensures(T::empty_sum, (), r)
}

/// `r` is `a` plus `b`.
pub open spec fn is_plus<T: Scalar>(a: T, b: T, r: T) -> bool {
    call_ensures(T::plus, (a, b), r)
}

/// `r` is `a` minus `b`.
pub open spec fn is_minus<T: Scalar>(a: T, b: T, r: T) -> bool {
    call_ensures(T::minus, (a, b), r)
}

/// `r` is `a` squared.
pub open spec fn is_square<T: Scalar>(a: T, r: T) -> bool {
    call_ensures(T::squared, (a,), r)
}

/// `r` is the `n`-th part of `a`.
pub open spec fn is_part<T: Scalar>(a: T, n: nat, r: T) -> bool {
    call_ensures(T::divided_by, (a, n as usize), r)
}

/// `r` is the square root of `a`.
pub open spec fn is_root<T: Scalar>(a: T, r: T) -> bool {
    call_ensures(T::root, (a,), r)
}

/// `partial` lists the sums of none, the first, the first two, ... of `values`.
pub open spec fn are_partial_sums<T: Scalar>(values: Seq<T>, partial: Seq<T>) -> bool {
    &&& partial.len() == values.len() + 1
    &&& is_empty_sum(partial[0])
    &&& forall|i: int|
        0 <= i < values.len() ==> is_plus(partial[i], #[trigger] values[i], partial[i + 1])
}

/// `r` is the sum of `values`, added up from the first to the last.
pub open spec fn is_sum<T: Scalar>(values: Seq<T>, r: T) -> bool {
    exists|partial: Seq<T>| #[trigger] are_partial_sums(values, partial) && r == partial.last()
}

/// `r` is the mean of `values`: their sum, divided by their number.
pub open spec fn is_mean<T: Scalar>(values: Seq<T>, r: T) -> bool {
    exists|total: T| #[trigger] is_sum(values, total) && is_part(total, values.len(), r)
}

/// `r` is the square of the distance of `a` from `center`.
pub open spec fn is_squared_distance<T: Scalar>(a: T, center: T, r: T) -> bool {
    exists|d: T| #[trigger] is_minus(a, center, d) && is_square(d, r)
}

/// `squares` lists the squared distances of `values` from `center`.
pub open spec fn are_squared_distances<T: Scalar>(
    values: Seq<T>,
    center: T,
    squares: Seq<T>,
) -> bool {
    &&& squares.len() == values.len()
    &&& forall|i: int|
        0 <= i < values.len() ==> is_squared_distance(values[i], center, #[trigger] squares[i])
}

/// `r` is the sample variance of `values`: the sum of the squared distances from
/// their mean, divided by one less than their number.
pub open spec fn is_variance<T: Scalar>(values: Seq<T>, r: T) -> bool {
    exists|center: T, squares: Seq<T>, total: T|
        is_mean(values, center) && #[trigger] are_squared_distances(values, center, squares)
            && #[trigger] is_sum(squares, total) && is_part(total, (values.len() - 1) as nat, r)
}

/// `r` is the sample standard deviation of `values`, zero for fewer than two.
pub open spec fn is_std<T: Scalar>(values: Seq<T>, r: T) -> bool {
    if values.len() < 2 {
        is_zero(r)
    } else {
        exists|variance: T| #[trigger] is_variance(values, variance) && is_root(variance, r)
    }
}

/// Adds up the values, from the first to the last.
pub fn sum<T: Scalar>(values: &Vec<T>) -> (r: T)
    ensures
        is_sum(values@, r),
{
    let mut total = T::empty_sum();
    let ghost mut partial: Seq<T> = seq![total];
    let mut i: usize = 0;
    while i < values.len()
        invariant
            i <= values@.len(),
            partial.len() == i + 1,
            total == partial.last(),
            is_empty_sum(partial[0]),
            forall|k: int|
                0 <= k < i ==> is_plus(partial[k], #[trigger] values@[k], partial[k + 1]),
        decreases values.len() - i,
    {
        total = total.plus(values[i]);
        proof {
            partial = partial.push(total);
        }
        i += 1;
    }
    assert(are_partial_sums(values@, partial));
    total
}

/// The mean of the values.
pub fn mean<T: Scalar>(values: &Vec<T>) -> (r: T)
    ensures
        is_mean(values@, r),
{
    sum(values).divided_by(values.len())
}

/// The sample standard deviation of the values, zero for fewer than two.
pub fn stddev<T: Scalar>(values: &Vec<T>) -> (r: T)
    ensures
        is_std(values@, r),
{
    if values.len() < 2 {
        return T::zero();
    }
    let center = mean(values);
    let mut squares: Vec<T> = Vec::new();
    let mut i: usize = 0;
    while i < values.len()
        invariant
            i <= values@.len(),
            squares@.len() == i,
            forall|k: int|
                0 <= k < i ==> is_squared_distance(values@[k], center, #[trigger] squares@[k]),
        decreases values.len() - i,
    {
        let d = values[i].minus(center);
        let square = d.squared();
        assert(is_minus(values@[i as int], center, d));
        assert(is_squared_distance(values@[i as int], center, square));
        squares.push(square);
        i += 1;
    }
    let total = sum(&squares);
    assert(are_squared_distances(values@, center, squares@));
    let variance = total.divided_by(values.len() - 1);
    assert(is_variance(values@, variance));
    variance.root()
}

/// What the operations that add and divide make of turned values: `value` is
/// what a number stands for, and turning what goes in turns what comes out.
///
/// Turned by nothing, this says that what comes out is settled by what goes in;
/// turned by a change of sign, that rounding knows no direction.
pub open spec fn turns_with<T: Scalar, V>(value: spec_fn(T) -> V, turn: spec_fn(V) -> V) -> bool {
    &&& forall|r: T, s: T| #[trigger]
        is_empty_sum(r) && #[trigger] is_empty_sum(s) ==> value(s) == turn(value(r))
    &&& forall|a: T, b: T, r: T, c: T, d: T, s: T| #[trigger]
        is_plus(a, b, r) && #[trigger] is_plus(c, d, s) && value(c) == turn(value(a)) && value(d)
            == turn(value(b)) ==> value(s) == turn(value(r))
    &&& forall|a: T, b: T, r: T, c: T, d: T, s: T| #[trigger]
        is_minus(a, b, r) && #[trigger] is_minus(c, d, s) && value(c) == turn(value(a)) && value(d)
            == turn(value(b)) ==> value(s) == turn(value(r))
    &&& forall|a: T, n: nat, r: T, c: T, s: T| #[trigger]
        is_part(a, n, r) && #[trigger] is_part(c, n, s) && value(c) == turn(value(a)) ==> value(s)
            == turn(value(r))
}

/// A square is the same for a turned value.
pub open spec fn square_forgets<T: Scalar, V>(
    value: spec_fn(T) -> V,
    turn: spec_fn(V) -> V,
) -> bool {
    forall|a: T, r: T, c: T, s: T| #[trigger]
        is_square(a, r) && #[trigger] is_square(c, s) && value(c) == turn(value(a)) ==> value(s)
            == value(r)
}

/// The turn that leaves everything as it is.
pub open spec fn unturned<V>() -> spec_fn(V) -> V {
    |v: V| v
}

/// Every operation gives one result: what it comes to is settled by what its
/// arguments come to. Floating-point numbers obey this where `value` tells
/// neither the two zeros apart nor one not-a-number from another.
pub open spec fn settled<T: Scalar, V>(value: spec_fn(T) -> V) -> bool {
    &&& turns_with(value, unturned())
    &&& square_forgets(value, unturned())
    &&& forall|r: T, s: T| #[trigger]
        is_zero(r) && #[trigger] is_zero(s) ==> value(s) == value(r)
    &&& forall|a: T, r: T, c: T, s: T| #[trigger]
        is_root(a, r) && #[trigger] is_root(c, s) && value(c) == value(a) ==> value(s) == value(r)
}

/// The values are those of the other list, turned.
pub open spec fn are_turned<T, V>(
    value: spec_fn(T) -> V,
    turn: spec_fn(V) -> V,
    values: Seq<T>,
    turned: Seq<T>,
) -> bool {
    &&& turned.len() == values.len()
    &&& forall|i: int| #![trigger values[i]] #![trigger turned[i]]
        0 <= i < values.len() ==> value(turned[i]) == turn(value(values[i]))
}

proof fn lemma_partial_turned<T: Scalar, V>(
    value: spec_fn(T) -> V,
    turn: spec_fn(V) -> V,
    values: Seq<T>,
    turned: Seq<T>,
    p: Seq<T>,
    q: Seq<T>,
    i: int,
)
    requires
        turns_with(value, turn),
        are_turned(value, turn, values, turned),
        are_partial_sums(values, p),
        are_partial_sums(turned, q),
        0 <= i <= values.len(),
    ensures
        value(q[i]) == turn(value(p[i])),
    decreases i,
{
    if i > 0 {
        lemma_partial_turned(value, turn, values, turned, p, q, i - 1);
        assert(is_plus(p[i - 1], values[i - 1], p[i - 1 + 1]));
        assert(is_plus(q[i - 1], turned[i - 1], q[i - 1 + 1]));
    } else {
        assert(is_empty_sum(p[0]) && is_empty_sum(q[0]));
    }
}

/// The sum of turned values is the sum, turned.
pub proof fn sum_turns<T: Scalar, V>(
    value: spec_fn(T) -> V,
    turn: spec_fn(V) -> V,
    values: Seq<T>,
    turned: Seq<T>,
    r: T,
    s: T,
)
    requires
        turns_with(value, turn),
        are_turned(value, turn, values, turned),
        is_sum(values, r),
        is_sum(turned, s),
    ensures
        value(s) == turn(value(r)),
{
    let p = choose|p: Seq<T>| #[trigger] are_partial_sums(values, p) && r == p.last();
    let q = choose|q: Seq<T>| #[trigger] are_partial_sums(turned, q) && s == q.last();
    lemma_partial_turned(value, turn, values, turned, p, q, values.len() as int);
}

/// The mean of turned values is the mean, turned.
pub proof fn mean_turns<T: Scalar, V>(
    value: spec_fn(T) -> V,
    turn: spec_fn(V) -> V,
    values: Seq<T>,
    turned: Seq<T>,
    r: T,
    s: T,
)
    requires
        turns_with(value, turn),
        are_turned(value, turn, values, turned),
        is_mean(values, r),
        is_mean(turned, s),
    ensures
        value(s) == turn(value(r)),
{
    let a = choose|a: T| #[trigger] is_sum(values, a) && is_part(a, values.len(), r);
    let b = choose|b: T| #[trigger] is_sum(turned, b) && is_part(b, turned.len(), s);
    sum_turns(value, turn, values, turned, a, b);
}

/// Turned values deviate as much as the values do.
pub proof fn deviation_forgets_turns<T: Scalar, V>(
    value: spec_fn(T) -> V,
    turn: spec_fn(V) -> V,
    values: Seq<T>,
    turned: Seq<T>,
    r: T,
    s: T,
)
    requires
        settled(value),
        turns_with(value, turn),
        square_forgets(value, turn),
        are_turned(value, turn, values, turned),
        is_std(values, r),
        is_std(turned, s),
    ensures
        value(s) == value(r),
{
    if values.len() >= 2 {
        let a = choose|a: T| #[trigger] is_variance(values, a) && is_root(a, r);
        let b = choose|b: T| #[trigger] is_variance(turned, b) && is_root(b, s);
        let (ca, sa, ta) = choose|center: T, squares: Seq<T>, total: T|
            is_mean(values, center) && #[trigger] are_squared_distances(values, center, squares)
                && #[trigger] is_sum(squares, total) && is_part(
                total,
                (values.len() - 1) as nat,
                a,
            );
        let (cb, sb, tb) = choose|center: T, squares: Seq<T>, total: T|
            is_mean(turned, center) && #[trigger] are_squared_distances(turned, center, squares)
                && #[trigger] is_sum(squares, total) && is_part(
                total,
                (turned.len() - 1) as nat,
                b,
            );
        mean_turns(value, turn, values, turned, ca, cb);
        assert forall|i: int| 0 <= i < values.len() implies value(#[trigger] sb[i]) == value(
            sa[i],
        ) by {
            assert(is_squared_distance(values[i], ca, sa[i]));
            assert(is_squared_distance(turned[i], cb, sb[i]));
            let da = choose|d: T| #[trigger] is_minus(values[i], ca, d) && is_square(d, sa[i]);
            let db = choose|d: T| #[trigger] is_minus(turned[i], cb, d) && is_square(d, sb[i]);
            assert(value(db) == turn(value(da)));
        }
        assert(are_turned(value, unturned(), sa, sb));
        sum_turns(value, unturned(), sa, sb, ta, tb);
        assert(value(b) == value(a));
    }
}

/// Sums, differences and parts are exact: `value` is the number that a coordinate
/// stands for. Numbers that are rounded need not obey this.
pub open spec fn exact<T: Scalar>(value: spec_fn(T) -> real) -> bool {
    &&& forall|r: T| #[trigger] is_empty_sum(r) ==> value(r) == 0 as real
    &&& forall|a: T, b: T, r: T| #[trigger] is_plus(a, b, r) ==> value(r) == value(a) + value(b)
    &&& forall|a: T, b: T, r: T| #[trigger] is_minus(a, b, r) ==> value(r) == value(a) - value(b)
    &&& forall|a: T, n: nat, r: T|
        0 < n <= usize::MAX && #[trigger] is_part(a, n, r) ==> n as real * value(r) == value(a)
}

/// The numbers that a list of coordinates stands for.
pub open spec fn numbers<T>(value: spec_fn(T) -> real, values: Seq<T>) -> Seq<real> {
    values.map_values(value)
}

/// The sum of a list of numbers.
pub open spec fn total(numbers: Seq<real>) -> real
    decreases numbers.len(),
{
    if numbers.len() == 0 {
        0 as real
    } else {
        total(numbers.drop_last()) + numbers.last()
    }
}

proof fn lemma_partial_total<T: Scalar>(
    value: spec_fn(T) -> real,
    values: Seq<T>,
    p: Seq<T>,
    i: int,
)
    requires
        exact(value),
        are_partial_sums(values, p),
        0 <= i <= values.len(),
    ensures
        value(p[i]) == total(numbers(value, values).take(i)),
    decreases i,
{
    let all = numbers(value, values);
    if i > 0 {
        lemma_partial_total(value, values, p, i - 1);
        assert(is_plus(p[i - 1], values[i - 1], p[i - 1 + 1]));
        assert(all.take(i).drop_last() =~= all.take(i - 1));
        assert(all.take(i).last() == value(values[i - 1]));
    } else {
        assert(is_empty_sum(p[0]));
    }
}

/// Where arithmetic is exact, the mean times the number of values is their sum.
pub proof fn mean_is_exact<T: Scalar>(value: spec_fn(T) -> real, values: Seq<T>, r: T)
    requires
        exact(value),
        0 < values.len() <= usize::MAX,
        is_mean(values, r),
    ensures
        values.len() as real * value(r) == total(numbers(value, values)),
{
    let a = choose|a: T| #[trigger] is_sum(values, a) && is_part(a, values.len(), r);
    let p = choose|p: Seq<T>| #[trigger] are_partial_sums(values, p) && a == p.last();
    lemma_partial_total(value, values, p, values.len() as int);
    assert(numbers(value, values).take(values.len() as int) =~= numbers(value, values));
}

/// Squares and roots are exact as well: `value` is the number that a coordinate
/// stands for.
pub open spec fn exact_roots<T: Scalar>(value: spec_fn(T) -> real) -> bool {
    &&& forall|r: T| #[trigger] is_zero(r) ==> value(r) == 0 as real
    &&& forall|a: T, r: T| #[trigger] is_square(a, r) ==> value(r) == value(a) * value(a)
    &&& forall|a: T, r: T| #[trigger]
        is_root(a, r) && value(a) >= 0 as real ==> value(r) >= 0 as real && value(r) * value(r)
            == value(a)
}

/// Where arithmetic is exact, the sum of the values is the sum of the numbers
/// that they stand for.
pub proof fn sum_is_exact<T: Scalar>(value: spec_fn(T) -> real, values: Seq<T>, r: T)
    requires
        exact(value),
        is_sum(values, r),
    ensures
        value(r) == total(numbers(value, values)),
{
    let p = choose|p: Seq<T>| #[trigger] are_partial_sums(values, p) && r == p.last();
    lemma_partial_total(value, values, p, values.len() as int);
    assert(numbers(value, values).take(values.len() as int) =~= numbers(value, values));
}

proof fn lemma_same_factor(n: real, a: real, b: real)
    requires
        n >= 1 as real,
        n * a == n * b,
    ensures
        a == b,
{
    assert(a == b) by (nonlinear_arith)
        requires
            n >= 1 as real,
            n * a == n * b,
    ;
}

proof fn lemma_not_negative(n: real, a: real)
    requires
        n >= 1 as real,
        n * a >= 0 as real,
    ensures
        a >= 0 as real,
{
    assert(a >= 0 as real) by (nonlinear_arith)
        requires
            n >= 1 as real,
            n * a >= 0 as real,
    ;
}

proof fn lemma_squares_are_spread<T: Scalar>(
    value: spec_fn(T) -> real,
    values: Seq<T>,
    center: T,
    squares: Seq<T>,
)
    requires
        exact(value),
        exact_roots(value),
        are_squared_distances(values, center, squares),
    ensures
        total(numbers(value, squares)) == spread(numbers(value, values), value(center)),
        total(numbers(value, squares)) >= 0 as real,
    decreases values.len(),
{
    if values.len() > 0 {
        let n: int = values.len() as int;
        let front = values.drop_last();
        let squares_front = squares.drop_last();
        assert forall|i: int| 0 <= i < front.len() implies is_squared_distance(
            front[i],
            center,
            #[trigger] squares_front[i],
        ) by {
            assert(squares_front[i] == squares[i]);
        }
        lemma_squares_are_spread(value, front, center, squares_front);
        assert(is_squared_distance(values[n - 1], center, squares[n - 1]));
        let d = choose|d: T| #[trigger]
            is_minus(values[n - 1], center, d) && is_square(d, squares[n - 1]);
        assert(numbers(value, values).drop_last() =~= numbers(value, front));
        assert(numbers(value, squares).drop_last() =~= numbers(value, squares_front));
        let x = value(d);
        assert(x * x >= 0 as real) by (nonlinear_arith);
        assert(value(squares[n - 1]) == x * x);
        assert(x == value(values[n - 1]) - value(center));
    }
}

/// Where arithmetic is exact, the square of a sample standard deviation, times
/// one less than the number of values, is the sum of the squared distances of the
/// values from their mean `m`; a deviation is never negative, and fewer than two
/// values have none.
pub proof fn deviation_is_exact<T: Scalar>(
    value: spec_fn(T) -> real,
    values: Seq<T>,
    m: real,
    r: T,
)
    requires
        exact(value),
        exact_roots(value),
        values.len() <= usize::MAX,
        values.len() as real * m == total(numbers(value, values)),
        is_std(values, r),
    ensures
        value(r) >= 0 as real,
        values.len() < 2 ==> value(r) == 0 as real,
        values.len() >= 2 ==> (values.len() - 1) as real * (value(r) * value(r)) == spread(
            numbers(value, values),
            m,
        ),
{
    if values.len() >= 2 {
        let a = choose|a: T| #[trigger] is_variance(values, a) && is_root(a, r);
        let (center, squares, sum) = choose|center: T, squares: Seq<T>, sum: T|
            is_mean(values, center) && #[trigger] are_squared_distances(values, center, squares)
                && #[trigger] is_sum(squares, sum) && is_part(sum, (values.len() - 1) as nat, a);
        mean_is_exact(value, values, center);
        lemma_same_factor(values.len() as real, value(center), m);
        sum_is_exact(value, squares, sum);
        lemma_squares_are_spread(value, values, center, squares);
        let k = (values.len() - 1) as nat;
        assert(k as real * value(a) == value(sum));
        lemma_not_negative(k as real, value(a));
        assert((values.len() - 1) as real == k as real);
    }
}

/// Where arithmetic is exact, the sum, the mean and the deviation that are
/// computed are those of the numbers.
pub proof fn computed_statistics_are_exact<T: Scalar>(
    value: spec_fn(T) -> real,
    values: &Vec<T>,
    s: T,
    m: T,
    d: T,
)
    requires
        exact(value),
        exact_roots(value),
        values@.len() > 0,
        call_ensures(sum::<T>, (values,), s),
        call_ensures(mean::<T>, (values,), m),
        call_ensures(stddev::<T>, (values,), d),
    ensures
        value(s) == total(numbers(value, values@)),
        values@.len() as real * value(m) == value(s),
        value(d) >= 0 as real,
        values@.len() == 1 ==> value(d) == 0 as real,
        values@.len() >= 2 ==> (values@.len() - 1) as real * (value(d) * value(d)) == spread(
            numbers(value, values@),
            value(m),
        ),
{
    assert(values@.len() == values.len());
    sum_is_exact(value, values@, s);
    mean_is_exact(value, values@, m);
    deviation_is_exact(value, values@, value(m), d);
}

} // verus!
