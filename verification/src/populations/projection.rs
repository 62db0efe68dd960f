//! The mathematics of one projection step, stated over the scalar's own
//! arithmetic.
//!
//! A scalar's `+` and `*` need not be functions of their operands (rounding
//! modes, extended precision), and they may refuse operands (overflow). So a
//! projection is described by relations: which values an operation may
//! return, and on which operands it may be called at all.

use core::ops::{Add, Mul};
use vstd::prelude::*;

verus! {

/// What a population can be counted in: a copyable number type with a
/// default value, which serves as the empty sum, an addition and a
/// multiplication. Every such type is a scalar.
pub trait Scalar: Copy + Default + Add<Output = Self> + Mul<Output = Self> {

}

impl<T: Copy + Default + Add<Output = T> + Mul<Output = T>> Scalar for T {

}

/// `zero` is a value that the scalar's default may return.
pub open spec fn is_zero<T: Scalar>(zero: T) -> bool {
    call_ensures(T::default, (), zero)
}

/// `product` is a value that `rate * count` may return.
pub open spec fn is_product<T: Scalar>(rate: T, count: T, product: T) -> bool {
    call_ensures(T::mul, (rate, count), product)
}

/// `sum` is a value that `left + right` may return.
pub open spec fn is_sum<T: Scalar>(left: T, right: T, sum: T) -> bool {
    call_ensures(T::add, (left, right), sum)
}

/// `rate * count` may be evaluated.
pub open spec fn can_multiply<T: Scalar>(rate: T, count: T) -> bool {
    call_requires(T::mul, (rate, count))
}

/// `left + right` may be evaluated.
pub open spec fn can_add<T: Scalar>(left: T, right: T) -> bool {
    call_requires(T::add, (left, right))
}

/// `total` is a value that the sum of the first `n` terms
/// `rates[j] * counts[j]` may take, when the terms are added from left to
/// right onto a zero.
pub open spec fn accumulates<T: Scalar>(rates: Seq<T>, counts: Seq<T>, n: nat, total: T) -> bool
    decreases n,
{
    if n == 0 {
        is_zero(total)
    } else {
        exists|before: T, term: T|
            accumulates(rates, counts, (n - 1) as nat, before) && is_product(
                rates[n - 1],
                counts[n - 1],
                term,
            ) && #[trigger] is_sum(before, term, total)
    }
}

/// The first `n` terms can be multiplied and added up, whatever values the
/// operations return on the way.
pub open spec fn terms_defined<T: Scalar>(rates: Seq<T>, counts: Seq<T>, n: nat) -> bool
    decreases n,
{
    n == 0 || {
        &&& terms_defined(rates, counts, (n - 1) as nat)
        &&& can_multiply(rates[n - 1], counts[n - 1])
        &&& forall|before: T, term: T|
            accumulates(rates, counts, (n - 1) as nat, before) && is_product(
                rates[n - 1],
                counts[n - 1],
                term,
            ) ==> #[trigger] can_add(before, term)
    }
}

/// Every row of `matrix` has as many entries as the matrix has rows.
pub open spec fn is_square<T>(matrix: Seq<Seq<T>>) -> bool {
    forall|i: int| 0 <= i < matrix.len() ==> (#[trigger] matrix[i]).len() == matrix.len()
}

/// `next` is a population that one step from `counts` may give: stage `i` of
/// it is the sum over the source stages `j` of `matrix[i][j] * counts[j]`.
pub open spec fn projects<T: Scalar>(matrix: Seq<Seq<T>>, counts: Seq<T>, next: Seq<T>) -> bool {
    &&& next.len() == matrix.len()
    &&& forall|i: int|
        0 <= i < matrix.len() ==> accumulates(
            matrix[i],
            counts,
            matrix[i].len(),
            #[trigger] next[i],
        )
}

/// One step from `counts` can be computed.
pub open spec fn projection_defined<T: Scalar>(matrix: Seq<Seq<T>>, counts: Seq<T>) -> bool {
    forall|i: int|
        0 <= i < matrix.len() ==> terms_defined(#[trigger] matrix[i], counts, matrix[i].len())
}

/// The population that a series of steps from `start` has arrived at.
pub open spec fn latest<T>(start: Seq<T>, series: Seq<Seq<T>>) -> Seq<T> {
    if series.len() == 0 {
        start
    } else {
        series.last()
    }
}

/// `series` is a run of steps from `start`: its first entry is projected
/// from `start`, and each later entry from the one before it. The start is
/// not part of the series.
pub open spec fn is_trajectory<T: Scalar>(
    matrix: Seq<Seq<T>>,
    start: Seq<T>,
    series: Seq<Seq<T>>,
) -> bool {
    forall|k: int|
        0 <= k < series.len() ==> projects(
            matrix,
            latest(start, series.take(k)),
            #[trigger] series[k],
        )
}

/// `steps` steps from `start` can be computed, whatever values the
/// arithmetic returns on the way.
pub open spec fn trajectory_defined<T: Scalar>(
    matrix: Seq<Seq<T>>,
    start: Seq<T>,
    steps: nat,
) -> bool {
    forall|series: Seq<Seq<T>>|
        series.len() < steps && #[trigger] is_trajectory(matrix, start, series)
            ==> projection_defined(matrix, latest(start, series))
}

/// What can be computed for `n` terms can be computed for fewer.
pub proof fn lemma_terms_defined_before<T: Scalar>(rates: Seq<T>, counts: Seq<T>, n: nat, k: nat)
    requires
        terms_defined(rates, counts, n),
        k <= n,
    ensures
        terms_defined(rates, counts, k),
    decreases n,
{
    if k < n {
        lemma_terms_defined_before(rates, counts, (n - 1) as nat, k);
    }
}

} // verus!
