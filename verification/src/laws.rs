use vstd::prelude::*;
use vstd::arithmetic::power::pow;
use crate::discount::{discount_bases, AveragingParams};
use crate::restart::{
    is_power_of_four, largest_power_of_four_at_most, lemma_largest_power_of_four,
    lemma_largest_power_of_four_unique, lemma_latest_point, lemma_latest_point_unique,
    lemma_powers_of_four_ordered, RestartSchedule,
};

verus! {

/// Whatever the schedule, iteration 0 counts the cumulative-strategy discount from zero, and its
/// regret base is zero too.
pub proof fn law_first_iteration_starts_from_zero(params: AveragingParams)
    ensures
        discount_bases(0, params).t_gamma == 0,
        discount_bases(0, params).t_alpha == 0,
{
    match params.restart {
        RestartSchedule::At(points) => lemma_latest_point(points@, 0),
        _ => {},
    }
}

/// With an explicit list, the cumulative-strategy discount restarts exactly at iteration 0 and
/// at the listed iterations.
pub proof fn law_listed_iterations_restart(params: AveragingParams, t: u32)
    requires
        params.restart is At,
    ensures
        discount_bases(t, params).t_gamma == 0 <==> (t == 0 || params.restart->At_0@.contains(t)),
{
    let points = params.restart->At_0@;
    lemma_latest_point(points, t);
    if points.contains(t) {
        let k = choose|k: int| 0 <= k < points.len() && points[k] == t;
        assert(points[k] <= t);
    }
}

/// With the powers-of-four schedule, the cumulative-strategy discount restarts exactly at
/// iteration 0 and at the powers of four.
pub proof fn law_powers_of_four_restart(params: AveragingParams, t: u32)
    requires
        params.restart is PowersOfFour,
    ensures
        discount_bases(t, params).t_gamma == 0 <==> (t == 0 || is_power_of_four(t as int)),
{
    if t > 0 {
        lemma_largest_power_of_four(t as nat);
        if is_power_of_four(t as int) {
            lemma_largest_power_of_four_unique(t as nat, t as int);
        }
    }
}

/// Between two restarts of the powers-of-four schedule the discount counts up by one per
/// iteration: it stays below three times the latest restart.
pub proof fn law_powers_of_four_window(params: AveragingParams, t: u32)
    requires
        params.restart is PowersOfFour,
        t > 0,
    ensures
        discount_bases(t, params).t_gamma < 3 * largest_power_of_four_at_most(t as nat),
        is_power_of_four(largest_power_of_four_at_most(t as nat) as int),
{
    lemma_largest_power_of_four(t as nat);
}

/// Without restarts the cumulative-strategy discount counts from iteration 0, so only
/// iteration 0 starts it from zero.
pub proof fn law_never_restarts(params: AveragingParams, t: u32)
    requires
        params.restart is Never,
    ensures
        discount_bases(t, params).t_gamma == t,
{
}

/// An empty explicit list gives the same discounting as no restart at all.
pub proof fn law_empty_list_is_never(a: AveragingParams, b: AveragingParams, t: u32)
    requires
        a.restart is At,
        a.restart->At_0@.len() == 0,
        b.restart is Never,
        a.gamma == b.gamma,
    ensures
        discount_bases(t, a) == discount_bases(t, b),
{
}

/// The order of an explicit list, and any repetition in it, does not matter: two lists with the
/// same entries give the same discounting.
pub proof fn law_list_order_irrelevant(a: AveragingParams, b: AveragingParams, t: u32)
    requires
        a.restart is At,
        b.restart is At,
        forall|x: u32| a.restart->At_0@.contains(x) <==> b.restart->At_0@.contains(x),
        a.gamma == b.gamma,
    ensures
        discount_bases(t, a) == discount_bases(t, b),
{
    let pa = a.restart->At_0@;
    let pb = b.restart->At_0@;
    lemma_latest_point(pa, t);
    let r = crate::restart::latest_point_at_or_before(pa, t);
    assert forall|i: int| 0 <= i < pb.len() && pb[i] <= t implies pb[i] <= r by {
        assert(pb.contains(pb[i]));
    }
    if r != 0 {
        assert(pa.contains(r));
    }
    lemma_latest_point_unique(pb, t, r);
}

/// An explicit list of powers of four that holds every power of four at or below `t` gives the
/// same discounting at `t` as the powers-of-four schedule.
pub proof fn law_listed_powers_of_four_match(a: AveragingParams, b: AveragingParams, t: u32)
    requires
        a.restart is At,
        forall|i: int|
            0 <= i < a.restart->At_0@.len() ==> is_power_of_four(
                #[trigger] a.restart->At_0@[i] as int,
            ),
        forall|p: u32| is_power_of_four(p as int) && p <= t ==> a.restart->At_0@.contains(p),
        b.restart is PowersOfFour,
        a.gamma == b.gamma,
    ensures
        discount_bases(t, a) == discount_bases(t, b),
{
    let points = a.restart->At_0@;
    lemma_latest_point(points, t);
    if t == 0 {
    } else {
        lemma_largest_power_of_four(t as nat);
        let r = largest_power_of_four_at_most(t as nat);
        assert(is_power_of_four(r as u32 as int));
        assert(points.contains(r as u32));
        assert forall|i: int| 0 <= i < points.len() && points[i] <= t implies points[i] <= r by {
            assert(is_power_of_four(points[i] as int));
            lemma_powers_of_four_ordered(points[i] as int, r as int);
        }
        lemma_latest_point_unique(points, t, r as u32);
    }
}

/// The cumulative-strategy exponent of every iteration is `gamma` itself, saturated at the
/// largest `i32`: `min(gamma, i32::MAX)`.
pub proof fn law_gamma_exponent_is_gamma(t: u32, params: AveragingParams)
    ensures
        params.gamma <= i32::MAX ==> discount_bases(t, params).gamma_exponent == params.gamma,
        params.gamma > i32::MAX ==> discount_bases(t, params).gamma_exponent == i32::MAX,
        params.gamma == 1 ==> discount_bases(t, params).gamma_exponent == 1,
        params.gamma == 0 ==> discount_bases(t, params).gamma_exponent == 0,
{
}

/// The regret base of iteration `t` is the previous iteration, `t - 1`, for `1 <= t < 2^31`,
/// and 0 at iteration 0 and at the iterations whose signed reading is negative.
pub proof fn law_alpha_base_is_previous_iteration(t: u32, params: AveragingParams)
    ensures
        1 <= t < 0x8000_0000 ==> discount_bases(t, params).t_alpha == t - 1,
        t == 0 || t > 0x8000_0000 ==> discount_bases(t, params).t_alpha == 0,
{
}

/// With an explicit list, the cumulative-strategy discount counts from the largest listed
/// iteration at or below `t`, however far `t` is past it, and from 0 when no listed iteration is
/// at or below `t`: the base is at most `t`, is 0 or listed, and is at least every listed
/// iteration at or below `t`.
pub proof fn law_listed_base_is_latest_listed(params: AveragingParams, t: u32)
    requires
        params.restart is At,
    ensures
        params.restart.base_at(t) <= t,
        params.restart.base_at(t) == 0 || params.restart->At_0@.contains(params.restart.base_at(t)),
        forall|i: int|
            0 <= i < params.restart->At_0@.len() && params.restart->At_0@[i] <= t
                ==> #[trigger] params.restart->At_0@[i] <= params.restart.base_at(t),
        (exists|i: int| 0 <= i < params.restart->At_0@.len() && params.restart->At_0@[i] <= t)
            ==> params.restart->At_0@.contains(params.restart.base_at(t)),
        discount_bases(t, params).t_gamma == t - params.restart.base_at(t),
{
    let points = params.restart->At_0@;
    lemma_latest_point(points, t);
    if exists|i: int| 0 <= i < points.len() && points[i] <= t {
        let i = choose|i: int| 0 <= i < points.len() && points[i] <= t;
        if params.restart.base_at(t) == 0 {
            assert(points[i] <= 0);
            assert(points.contains(points[i]));
        }
    }
}

/// With the powers-of-four schedule, the cumulative-strategy discount counts from the power of
/// four `r` with `r <= t < 4 * r`, and from 0 at iteration 0.
pub proof fn law_powers_of_four_base(params: AveragingParams, t: u32)
    requires
        params.restart is PowersOfFour,
    ensures
        t == 0 ==> params.restart.base_at(t) == 0,
        t > 0 ==> is_power_of_four(params.restart.base_at(t) as int) && params.restart.base_at(t)
            <= t < 4 * params.restart.base_at(t),
        discount_bases(t, params).t_gamma == t - params.restart.base_at(t),
{
    if t > 0 {
        lemma_largest_power_of_four(t as nat);
    }
}

/// The powers of four are exactly the numbers `4^k` for natural `k`.
pub proof fn law_powers_of_four_are_four_to_the_k(n: int)
    ensures
        is_power_of_four(n) <==> exists|k: nat| pow(4, k) == n,
    decreases n,
{
    if is_power_of_four(n) {
        if n == 1 {
            assert(pow(4, 0) == 1) by { vstd::arithmetic::power::lemma_pow0(4); }
        } else {
            law_powers_of_four_are_four_to_the_k(n / 4);
            let k = choose|k: nat| pow(4, k) == n / 4;
            assert(pow(4, k + 1) == 4 * pow(4, k)) by {
                vstd::arithmetic::power::lemma_pow_adds(4, k, 1);
                vstd::arithmetic::power::lemma_pow1(4);
            }
            assert(pow(4, (k + 1) as nat) == n);
        }
    }
    if exists|k: nat| pow(4, k) == n {
        let k = choose|k: nat| pow(4, k) == n;
        lemma_four_to_the_k(k);
    }
}

proof fn lemma_four_to_the_k(k: nat)
    ensures
        is_power_of_four(pow(4, k)),
    decreases k,
{
    if k == 0 {
        vstd::arithmetic::power::lemma_pow0(4);
    } else {
        lemma_four_to_the_k((k - 1) as nat);
        let m = pow(4, (k - 1) as nat);
        vstd::arithmetic::power::lemma_pow_positive(4, (k - 1) as nat);
        assert(pow(4, k) == 4 * m) by {
            vstd::arithmetic::power::lemma_pow_adds(4, (k - 1) as nat, 1);
            vstd::arithmetic::power::lemma_pow1(4);
        }
        assert((4 * m) % 4 == 0 && (4 * m) / 4 == m);
    }
}

} // verus!
