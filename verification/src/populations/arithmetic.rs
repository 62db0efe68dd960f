//! What follows for a projection from what is known of the scalar's
//! arithmetic: where it accepts all operands, every projection can be
//! computed; where it is a function of its operands, a projection has one
//! result.

use crate::populations::population_level_simulation::{rows_of, shape_fault, PopulationMatrix};
use crate::populations::projection::{
    accumulates, can_add, can_multiply, is_product, is_square, is_sum, is_trajectory, is_zero,
    latest, projection_defined, projects, terms_defined, trajectory_defined, Scalar,
};
use vstd::prelude::*;

verus! {

/// The scalar's `*` and `+` accept every pair of operands, as those of the
/// machine reals do, which round or overflow to infinity and never fail.
pub open spec fn arithmetic_is_total<T: Scalar>() -> bool {
    &&& forall|rate: T, count: T| #[trigger] can_multiply(rate, count)
    &&& forall|left: T, right: T| #[trigger] can_add(left, right)
}

/// The scalar's default value, `*` and `+` are functions: the same operands
/// always give the same result.
pub open spec fn arithmetic_is_deterministic<T: Scalar>() -> bool {
    &&& forall|zero: T, other: T|
        #[trigger] is_zero(zero) && #[trigger] is_zero(other) ==> zero == other
    &&& forall|rate: T, count: T, product: T, other: T|
        #[trigger] is_product(rate, count, product) && #[trigger] is_product(rate, count, other)
            ==> product == other
    &&& forall|left: T, right: T, sum: T, other: T|
        #[trigger] is_sum(left, right, sum) && #[trigger] is_sum(left, right, other) ==> sum
            == other
}

/// With total arithmetic any number of terms can be added up.
pub proof fn lemma_total_terms_defined<T: Scalar>(rates: Seq<T>, counts: Seq<T>, n: nat)
    requires
        arithmetic_is_total::<T>(),
    ensures
        terms_defined(rates, counts, n),
    decreases n,
{
    if n > 0 {
        lemma_total_terms_defined(rates, counts, (n - 1) as nat);
    }
}

/// With total arithmetic every population can be projected by every matrix.
pub proof fn lemma_total_projection_defined<T: Scalar>(matrix: Seq<Seq<T>>, counts: Seq<T>)
    requires
        arithmetic_is_total::<T>(),
    ensures
        projection_defined(matrix, counts),
{
    assert forall|i: int| 0 <= i < matrix.len() implies terms_defined(
        #[trigger] matrix[i],
        counts,
        matrix[i].len(),
    ) by {
        lemma_total_terms_defined(matrix[i], counts, matrix[i].len());
    }
}

/// With total arithmetic every population can be projected any number of
/// years ahead.
pub proof fn lemma_total_trajectory_defined<T: Scalar>(
    matrix: Seq<Seq<T>>,
    start: Seq<T>,
    steps: nat,
)
    requires
        arithmetic_is_total::<T>(),
    ensures
        trajectory_defined(matrix, start, steps),
{
    assert forall|series: Seq<Seq<T>>|
        series.len() < steps && #[trigger] is_trajectory(
            matrix,
            start,
            series,
        ) implies projection_defined(matrix, latest(start, series)) by {
        lemma_total_projection_defined(matrix, latest(start, series));
    }
}

/// With deterministic arithmetic a sum of terms has one value.
pub proof fn lemma_sum_is_unique<T: Scalar>(
    rates: Seq<T>,
    counts: Seq<T>,
    n: nat,
    total: T,
    other: T,
)
    requires
        arithmetic_is_deterministic::<T>(),
        accumulates(rates, counts, n, total),
        accumulates(rates, counts, n, other),
    ensures
        total == other,
    decreases n,
{
    if n > 0 {
        let (before, term) = choose|before: T, term: T|
            accumulates(rates, counts, (n - 1) as nat, before) && is_product(
                rates[n - 1],
                counts[n - 1],
                term,
            ) && #[trigger] is_sum(before, term, total);
        let (before_other, term_other) = choose|before: T, term: T|
            accumulates(rates, counts, (n - 1) as nat, before) && is_product(
                rates[n - 1],
                counts[n - 1],
                term,
            ) && #[trigger] is_sum(before, term, other);
        lemma_sum_is_unique(rates, counts, (n - 1) as nat, before, before_other);
    }
}

/// With deterministic arithmetic a population has one projection: to
/// project the same population by the same matrix again gives the same
/// population again.
pub proof fn lemma_projection_is_unique<T: Scalar>(
    matrix: Seq<Seq<T>>,
    counts: Seq<T>,
    next: Seq<T>,
    other: Seq<T>,
)
    requires
        arithmetic_is_deterministic::<T>(),
        projects(matrix, counts, next),
        projects(matrix, counts, other),
    ensures
        next == other,
{
    assert forall|i: int| 0 <= i < matrix.len() implies next[i] == other[i] by {
        lemma_sum_is_unique(matrix[i], counts, matrix[i].len(), next[i], other[i]);
    }
    assert(next =~= other);
}

/// With deterministic arithmetic a run has one result: two runs of the same
/// length from the same population by the same matrix return the same
/// populations, year by year.
pub proof fn lemma_trajectory_is_unique<T: Scalar>(
    matrix: Seq<Seq<T>>,
    start: Seq<T>,
    series: Seq<Seq<T>>,
    other: Seq<Seq<T>>,
)
    requires
        arithmetic_is_deterministic::<T>(),
        is_trajectory(matrix, start, series),
        is_trajectory(matrix, start, other),
        series.len() == other.len(),
    ensures
        series == other,
{
    lemma_trajectories_agree(matrix, start, series, other, series.len());
    assert(series.take(series.len() as int) =~= series);
    assert(other.take(other.len() as int) =~= other);
}

/// With deterministic arithmetic two runs from the same population by the
/// same matrix agree in their first `years` years.
pub proof fn lemma_trajectories_agree<T: Scalar>(
    matrix: Seq<Seq<T>>,
    start: Seq<T>,
    series: Seq<Seq<T>>,
    other: Seq<Seq<T>>,
    years: nat,
)
    requires
        arithmetic_is_deterministic::<T>(),
        is_trajectory(matrix, start, series),
        is_trajectory(matrix, start, other),
        years <= series.len(),
        years <= other.len(),
    ensures
        series.take(years as int) == other.take(years as int),
    decreases years,
{
    if years > 0 {
        let k = years - 1;
        lemma_trajectories_agree(matrix, start, series, other, k as nat);
        assert(projects(matrix, latest(start, series.take(k)), series[k]));
        assert(projects(matrix, latest(start, other.take(k)), other[k]));
        lemma_projection_is_unique(
            matrix,
            latest(start, series.take(k)),
            series[k],
            other[k],
        );
        assert(series.take(years as int) =~= series.take(k).push(series[k]));
        assert(other.take(years as int) =~= other.take(k).push(other[k]));
    } else {
        assert(series.take(0) =~= other.take(0));
    }
}

/// To build is repeatable: two matrices built of the same rows hold the
/// same rates, so whatever one of them may project a population to, the
/// other may too, and with deterministic arithmetic their projections of
/// a population are the same.
pub proof fn lemma_build_is_repeatable<T: Scalar>(
    rows: Seq<Vec<T>>,
    first: PopulationMatrix<T>,
    second: PopulationMatrix<T>,
    counts: Seq<T>,
    next: Seq<T>,
    other: Seq<T>,
)
    requires
        shape_fault(rows_of(rows)) is None,
        first@ == rows_of(rows),
        second@ == rows_of(rows),
    ensures
        first@ == second@,
        projects(first@, counts, next) <==> projects(second@, counts, next),
        arithmetic_is_deterministic::<T>() && projects(first@, counts, next) && projects(
            second@,
            counts,
            other,
        ) ==> next == other,
{
    if arithmetic_is_deterministic::<T>() && projects(first@, counts, next) && projects(
        second@,
        counts,
        other,
    ) {
        lemma_projection_is_unique(first@, counts, next, other);
    }
}

/// Rows in which `build` finds no fault are square: there is at least one
/// row, and every row is as long as there are rows.
pub proof fn lemma_faultless_rows_are_square<T>(rows: Seq<Seq<T>>)
    requires
        shape_fault(rows) is None,
    ensures
        rows.len() > 0,
        is_square(rows),
{
    assert forall|i: int| 0 <= i < rows.len() implies (#[trigger] rows[i]).len()
        == rows.len() by {
        lemma_row_is_as_long_as_the_first(rows, i);
    }
}

/// Where every row is as long as the row before it, every row is as long
/// as the first.
proof fn lemma_row_is_as_long_as_the_first<T>(rows: Seq<Seq<T>>, i: int)
    requires
        0 <= i < rows.len(),
        forall|k: int| 1 <= k < rows.len() ==> #[trigger] rows[k].len() == rows[k - 1].len(),
    ensures
        rows[i].len() == rows[0].len(),
    decreases i,
{
    if i > 0 {
        lemma_row_is_as_long_as_the_first(rows, i - 1);
    }
}

} // verus!
