use vstd::prelude::*;
use crate::restart::RestartSchedule;

verus! {

/// The part of the solve parameters that decides how the cumulative strategy is averaged:
/// `gamma` is the exponent applied to it, and `restart` decides when it is zeroed. The regret
/// exponents `alpha` and `beta` are real numbers and stay with the caller.
#[derive(Debug, Clone, PartialEq, Eq)]
pub struct AveragingParams {
    pub gamma: u32,
    pub restart: RestartSchedule,
}

impl AveragingParams {
    /// The engine's default: gamma 3, restart at powers of four.
    pub fn current() -> (p: Self)
        ensures
            p.gamma == 3,
            p.restart is PowersOfFour,
    {
        AveragingParams { gamma: 3, restart: RestartSchedule::PowersOfFour }
    }

    /// The Discounted CFR paper's recommendation: gamma 2, no restart.
    pub fn paper() -> (p: Self)
        ensures
            p.gamma == 2,
            p.restart is Never,
    {
        AveragingParams { gamma: 2, restart: RestartSchedule::Never }
    }
}

/// The integer inputs of one iteration's discount factors. The regrets are discounted by
/// `t_alpha` raised to the alpha and beta exponents, and the cumulative strategy by
/// `(t_gamma / (t_gamma + 1))` raised to `gamma_exponent`.
#[derive(Debug, Clone, Copy, PartialEq, Eq)]
pub struct DiscountBases {
    pub t_alpha: u32,
    pub t_gamma: u32,
    pub gamma_exponent: i32,
}

/// `t` read as a 32-bit two's complement integer.
pub open spec fn as_signed(t: u32) -> int {
    if t < 0x8000_0000 {
        t as int
    } else {
        t - 0x1_0000_0000
    }
}

/// The regret discount base at iteration `t`: `t` read as a signed integer, minus one, and at
/// least zero.
pub open spec fn alpha_base(t: u32) -> int {
    if as_signed(t) - 1 > 0 {
        as_signed(t) - 1
    } else {
        0
    }
}

/// `gamma` saturated at the largest `i32`.
pub open spec fn saturated_exponent(gamma: u32) -> int {
    if gamma > i32::MAX {
        i32::MAX as int
    } else {
        gamma as int
    }
}

/// The discount bases of iteration `t` under `params`.
pub open spec fn discount_bases(t: u32, params: AveragingParams) -> DiscountBases {
    DiscountBases {
        t_alpha: alpha_base(t) as u32,
        t_gamma: (t - params.restart.base_at(t)) as u32,
        gamma_exponent: saturated_exponent(params.gamma) as i32,
    }
}

impl DiscountBases {
    /// The discount bases of iteration `current_iteration` (zero-based) under `params`.
    /// The iteration `0x8000_0000`, whose signed reading has no predecessor, is left out.
    pub fn new(current_iteration: u32, params: &AveragingParams) -> (r: Self)
        requires
            current_iteration != 0x8000_0000,
        ensures
            r == discount_bases(current_iteration, *params),
            r.t_gamma <= current_iteration,
            r.t_gamma == current_iteration - params.restart.base_at(current_iteration),
            1 <= current_iteration < 0x8000_0000 ==> r.t_alpha == current_iteration - 1,
            current_iteration == 0 || current_iteration > 0x8000_0000 ==> r.t_alpha == 0,
            params.gamma <= i32::MAX ==> r.gamma_exponent == params.gamma,
            params.gamma > i32::MAX ==> r.gamma_exponent == i32::MAX,
            0 <= r.gamma_exponent,
    {
        let restart_base = params.restart.restart_base(current_iteration);
        let t_alpha: u32 = if current_iteration == 0 || current_iteration > 0x8000_0000 {
            0
        } else {
            current_iteration - 1
        };
        let t_gamma: u32 = current_iteration - restart_base;
        let gamma_exponent: i32 = if params.gamma > 0x7fff_ffff {
            i32::MAX
        } else {
            params.gamma as i32
        };
        DiscountBases { t_alpha, t_gamma, gamma_exponent }
    }
}

/// The discount bases one solver step uses at `current_iteration` with the engine's default
/// averaging, `AveragingParams::current()`.
pub fn solve_step(current_iteration: u32) -> (r: DiscountBases)
    requires
        current_iteration != 0x8000_0000,
    ensures
        r == discount_bases(
            current_iteration,
            AveragingParams { gamma: 3, restart: RestartSchedule::PowersOfFour },
        ),
{
    DiscountBases::new(current_iteration, &AveragingParams::current())
}

/// Whether the exploitability is recomputed after iteration `t` of a solve of
/// `max_num_iterations` iterations: after every tenth iteration, and after the last.
pub fn exploitability_check_due(t: u32, max_num_iterations: u32) -> (r: bool)
    requires
        t < max_num_iterations,
    ensures
        r == ((t + 1) % 10 == 0 || t + 1 == max_num_iterations),
{
    (t + 1) % 10 == 0 || t + 1 == max_num_iterations
}

} // verus!
