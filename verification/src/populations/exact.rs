//! Projections over exact scalars, such as the machine integers, whose `+`
//! and `*` return what their specifications say. There a projection is a
//! function of the matrix and the population, and it can be computed where
//! nothing overflows.

use crate::populations::arithmetic::arithmetic_is_deterministic;
use crate::populations::projection::{
    accumulates, can_add, is_product, is_sum, is_trajectory, is_zero, latest, projection_defined,
    projects, terms_defined, trajectory_defined, Scalar,
};
use vstd::prelude::*;
use vstd::std_specs::ops::{AddSpec, MulSpec};

verus! {

/// The scalar's `*` and `+` return what their specifications say, and its
/// default value is `zero`.
pub open spec fn arithmetic_is_exact<T: Scalar>(zero: T) -> bool {
    &&& T::obeys_add_spec()
    &&& T::obeys_mul_spec()
    &&& forall|other: T| #[trigger] is_zero(other) ==> other == zero
}

/// The sum of the first `n` terms `rates[j] * counts[j]`, added from left
/// to right onto `zero`, by the specifications of `*` and `+`.
pub open spec fn exact_sum<T: Scalar>(zero: T, rates: Seq<T>, counts: Seq<T>, n: nat) -> T
    decreases n,
{
    if n == 0 {
        zero
    } else {
        exact_sum(zero, rates, counts, (n - 1) as nat).add_spec(
            rates[n - 1].mul_spec(counts[n - 1]),
        )
    }
}

/// The first `n` terms and their partial sums, taken exactly, are operands
/// that `*` and `+` accept: for the machine integers, that nothing
/// overflows.
pub open spec fn exact_terms_fit<T: Scalar>(zero: T, rates: Seq<T>, counts: Seq<T>, n: nat) -> bool
    decreases n,
{
    n == 0 || {
        &&& exact_terms_fit(zero, rates, counts, (n - 1) as nat)
        &&& rates[n - 1].mul_req(counts[n - 1])
        &&& exact_sum(zero, rates, counts, (n - 1) as nat).add_req(
            rates[n - 1].mul_spec(counts[n - 1]),
        )
    }
}

/// The population one year after `counts`, by exact arithmetic.
pub open spec fn exact_projection<T: Scalar>(
    zero: T,
    matrix: Seq<Seq<T>>,
    counts: Seq<T>,
) -> Seq<T> {
    Seq::new(matrix.len(), |i: int| exact_sum(zero, matrix[i], counts, matrix[i].len()))
}

/// Every row's terms fit.
pub open spec fn exact_projection_fits<T: Scalar>(
    zero: T,
    matrix: Seq<Seq<T>>,
    counts: Seq<T>,
) -> bool {
    forall|i: int|
        0 <= i < matrix.len() ==> exact_terms_fit(
            zero,
            #[trigger] matrix[i],
            counts,
            matrix[i].len(),
        )
}

/// The population `years` years after `start`, by exact arithmetic.
pub open spec fn exact_population<T: Scalar>(
    zero: T,
    matrix: Seq<Seq<T>>,
    start: Seq<T>,
    years: nat,
) -> Seq<T>
    decreases years,
{
    if years == 0 {
        start
    } else {
        exact_projection(zero, matrix, exact_population(zero, matrix, start, (years - 1) as nat))
    }
}

/// Exact arithmetic is deterministic.
pub proof fn lemma_exact_is_deterministic<T: Scalar>(zero: T)
    requires
        arithmetic_is_exact(zero),
    ensures
        arithmetic_is_deterministic::<T>(),
{
}

/// With exact arithmetic a sum of terms is the exact sum.
pub proof fn lemma_sum_is_exact<T: Scalar>(
    zero: T,
    rates: Seq<T>,
    counts: Seq<T>,
    n: nat,
    total: T,
)
    requires
        arithmetic_is_exact(zero),
        accumulates(rates, counts, n, total),
    ensures
        total == exact_sum(zero, rates, counts, n),
    decreases n,
{
    if n > 0 {
        let (before, term) = choose|before: T, term: T|
            accumulates(rates, counts, (n - 1) as nat, before) && is_product(
                rates[n - 1],
                counts[n - 1],
                term,
            ) && #[trigger] is_sum(before, term, total);
        lemma_sum_is_exact(zero, rates, counts, (n - 1) as nat, before);
    }
}

/// With exact arithmetic, terms that fit can be added up.
pub proof fn lemma_fitting_terms_defined<T: Scalar>(
    zero: T,
    rates: Seq<T>,
    counts: Seq<T>,
    n: nat,
)
    requires
        arithmetic_is_exact(zero),
        exact_terms_fit(zero, rates, counts, n),
    ensures
        terms_defined(rates, counts, n),
    decreases n,
{
    if n > 0 {
        lemma_fitting_terms_defined(zero, rates, counts, (n - 1) as nat);
        assert forall|before: T, term: T|
            accumulates(rates, counts, (n - 1) as nat, before) && is_product(
                rates[n - 1],
                counts[n - 1],
                term,
            ) implies #[trigger] can_add(before, term) by {
            lemma_sum_is_exact(zero, rates, counts, (n - 1) as nat, before);
        }
    }
}

/// With exact arithmetic a projection is the exact projection.
pub proof fn lemma_projection_is_exact<T: Scalar>(
    zero: T,
    matrix: Seq<Seq<T>>,
    counts: Seq<T>,
    next: Seq<T>,
)
    requires
        arithmetic_is_exact(zero),
        projects(matrix, counts, next),
    ensures
        next == exact_projection(zero, matrix, counts),
{
    assert forall|i: int| 0 <= i < matrix.len() implies next[i] == exact_projection(
        zero,
        matrix,
        counts,
    )[i] by {
        lemma_sum_is_exact(zero, matrix[i], counts, matrix[i].len(), next[i]);
    }
    assert(next =~= exact_projection(zero, matrix, counts));
}

/// With exact arithmetic, a population whose terms fit in every row can be
/// projected.
pub proof fn lemma_fitting_projection_defined<T: Scalar>(
    zero: T,
    matrix: Seq<Seq<T>>,
    counts: Seq<T>,
)
    requires
        arithmetic_is_exact(zero),
        exact_projection_fits(zero, matrix, counts),
    ensures
        projection_defined(matrix, counts),
{
    assert forall|i: int| 0 <= i < matrix.len() implies terms_defined(
        #[trigger] matrix[i],
        counts,
        matrix[i].len(),
    ) by {
        lemma_fitting_terms_defined(zero, matrix[i], counts, matrix[i].len());
    }
}

/// With exact arithmetic a run arrives, year by year, at the exact
/// populations.
pub proof fn lemma_trajectory_is_exact<T: Scalar>(
    zero: T,
    matrix: Seq<Seq<T>>,
    start: Seq<T>,
    series: Seq<Seq<T>>,
    years: nat,
)
    requires
        arithmetic_is_exact(zero),
        is_trajectory(matrix, start, series),
        years <= series.len(),
    ensures
        latest(start, series.take(years as int)) == exact_population(zero, matrix, start, years),
    decreases years,
{
    if years > 0 {
        let k = years - 1;
        lemma_trajectory_is_exact(zero, matrix, start, series, k as nat);
        assert(projects(matrix, latest(start, series.take(k)), series[k]));
        lemma_projection_is_exact(zero, matrix, latest(start, series.take(k)), series[k]);
        assert(series.take(years as int).last() == series[k]);
    }
}

/// With exact arithmetic, `steps` years can be computed where the terms
/// fit in each of the exact populations before them.
pub proof fn lemma_fitting_trajectory_defined<T: Scalar>(
    zero: T,
    matrix: Seq<Seq<T>>,
    start: Seq<T>,
    steps: nat,
)
    requires
        arithmetic_is_exact(zero),
        forall|years: nat|
            years < steps ==> exact_projection_fits(
                zero,
                matrix,
                #[trigger] exact_population(zero, matrix, start, years),
            ),
    ensures
        trajectory_defined(matrix, start, steps),
{
    assert forall|series: Seq<Seq<T>>|
        series.len() < steps && #[trigger] is_trajectory(
            matrix,
            start,
            series,
        ) implies projection_defined(matrix, latest(start, series)) by {
        lemma_trajectory_is_exact(zero, matrix, start, series, series.len());
        assert(series.take(series.len() as int) =~= series);
        lemma_fitting_projection_defined(zero, matrix, latest(start, series));
    }
}

} // verus!
