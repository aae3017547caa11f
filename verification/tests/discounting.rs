use postflop_solver::{AveragingParams, DiscountBases, RestartSchedule};

/// The solve parameters as a caller holds them: real regret exponents beside the averaging.
#[derive(Clone)]
struct SolveParams {
    alpha: f64,
    beta: f64,
    averaging: AveragingParams,
}

impl SolveParams {
    fn current() -> Self {
        SolveParams {
            alpha: 1.5,
            beta: 0.0,
            averaging: AveragingParams::current(),
        }
    }

    fn paper() -> Self {
        SolveParams {
            alpha: 1.5,
            beta: 0.0,
            averaging: AveragingParams::paper(),
        }
    }

    fn with_restart(restart: RestartSchedule) -> Self {
        let mut params = SolveParams::current();
        params.averaging.restart = restart;
        params
    }
}

struct DiscountParams {
    alpha_t: f32,
    beta_t: f32,
    gamma_t: f32,
}

fn discount_factor(pow: f64) -> f32 {
    if pow.is_infinite() {
        1.0
    } else {
        (pow / (pow + 1.0)) as f32
    }
}

/// The discount factors of iteration `t`, computed from the library's integer bases.
fn discount(t: u32, params: &SolveParams) -> DiscountParams {
    let bases = DiscountBases::new(t, &params.averaging);
    let t_alpha = bases.t_alpha as f64;
    let t_gamma = bases.t_gamma as f64;
    let pow_alpha = if params.alpha == 1.5 {
        t_alpha * t_alpha.sqrt()
    } else {
        t_alpha.powf(params.alpha)
    };
    let pow_beta = t_alpha.powf(params.beta);
    let pow_gamma = (t_gamma / (t_gamma + 1.0)).powi(bases.gamma_exponent);
    DiscountParams {
        alpha_t: discount_factor(pow_alpha),
        beta_t: discount_factor(pow_beta),
        gamma_t: pow_gamma as f32,
    }
}

/// The discounting the engine used before the parameters existed.
fn legacy(current_iteration: u32) -> (f32, f32, f32) {
    let nearest_lower_power_of_4 = match current_iteration {
        0 => 0,
        x => 1 << ((x.leading_zeros() ^ 31) & !1),
    };
    let t_alpha = (current_iteration as i32 - 1).max(0) as f64;
    let t_gamma = (current_iteration - nearest_lower_power_of_4) as f64;
    let pow_alpha = t_alpha * t_alpha.sqrt();
    let pow_gamma = (t_gamma / (t_gamma + 1.0)).powi(3);
    (
        (pow_alpha / (pow_alpha + 1.0)) as f32,
        0.5,
        pow_gamma as f32,
    )
}

#[test]
fn current_preset_matches_legacy_discounting_bit_for_bit() {
    let params = SolveParams::current();
    for t in 0..5000 {
        let d = discount(t, &params);
        let (a, b, g) = legacy(t);
        assert_eq!(d.alpha_t.to_bits(), a.to_bits(), "alpha at {t}");
        assert_eq!(d.beta_t.to_bits(), b.to_bits(), "beta at {t}");
        assert_eq!(d.gamma_t.to_bits(), g.to_bits(), "gamma at {t}");
    }
}

#[test]
fn paper_preset_never_restarts_and_uses_square() {
    let params = SolveParams::paper();
    let d = discount(16, &params);
    let t = 16.0f64;
    assert_eq!(d.gamma_t, ((t / (t + 1.0)).powi(2)) as f32);
    assert!(discount(64, &params).gamma_t > 0.9);
}

#[test]
fn explicit_restart_list_resets_at_listed_iterations() {
    let params = SolveParams::with_restart(RestartSchedule::At(vec![100, 300]));
    assert_eq!(discount(100, &params).gamma_t, 0.0);
    assert_eq!(discount(300, &params).gamma_t, 0.0);
    assert!(discount(200, &params).gamma_t > 0.0);
    assert_eq!(discount(0, &params).gamma_t, 0.0);
}

#[test]
fn explicit_powers_of_four_list_matches_powers_of_four_schedule() {
    let powers_of_four = SolveParams::current();
    let explicit = SolveParams::with_restart(RestartSchedule::At(vec![1, 4, 16, 64, 256, 1024]));
    for t in 0..4096 {
        let a = discount(t, &powers_of_four);
        let b = discount(t, &explicit);
        assert_eq!(a.alpha_t.to_bits(), b.alpha_t.to_bits(), "alpha at {t}");
        assert_eq!(a.beta_t.to_bits(), b.beta_t.to_bits(), "beta at {t}");
        assert_eq!(a.gamma_t.to_bits(), b.gamma_t.to_bits(), "gamma at {t}");
    }
}

#[test]
fn infinite_alpha_reaches_the_cfr_plus_limit_without_nan() {
    let mut params = SolveParams::current();
    params.alpha = f64::INFINITY;
    for t in 0..100 {
        let alpha_t = discount(t, &params).alpha_t;
        assert!(!alpha_t.is_nan(), "alpha_t at t={t} must not be NaN");
        assert!(
            !alpha_t.is_infinite(),
            "alpha_t at t={t} must not be infinite"
        );
        let expected = match t {
            0 | 1 => 0.0,
            2 => 0.5,
            _ => 1.0,
        };
        assert_eq!(alpha_t, expected, "alpha_t at t={t}");
    }
}

#[test]
fn negative_infinite_beta_reaches_zero_without_nan() {
    let mut params = SolveParams::current();
    params.beta = f64::NEG_INFINITY;
    for t in 0..100 {
        let beta_t = discount(t, &params).beta_t;
        assert!(!beta_t.is_nan(), "beta_t at t={t} must not be NaN");
        assert!(
            !beta_t.is_infinite(),
            "beta_t at t={t} must not be infinite"
        );
        let expected = match t {
            0 | 1 => 1.0,
            2 => 0.5,
            _ => 0.0,
        };
        assert_eq!(beta_t, expected, "beta_t at t={t}");
    }
}

#[test]
fn negative_alpha_never_produces_nan() {
    let mut params = SolveParams::current();
    params.alpha = -1.0;
    assert_eq!(discount(0, &params).alpha_t, 1.0);
    assert_eq!(discount(1, &params).alpha_t, 1.0);
    for t in 0..1000 {
        let alpha_t = discount(t, &params).alpha_t;
        assert!(!alpha_t.is_nan(), "alpha_t at t={t} must not be NaN");
    }
}

#[test]
fn gamma_saturates_instead_of_wrapping() {
    let mut params = SolveParams::current();
    params.averaging.gamma = u32::MAX;
    for t in [0, 1, 2, 3, 100, 100_000, u32::MAX] {
        let gamma_t = discount(t, &params).gamma_t;
        assert!(
            !gamma_t.is_infinite(),
            "gamma_t at t={t} must not be infinite"
        );
        assert!(
            (0.0..=1.0).contains(&gamma_t),
            "gamma_t at t={t} = {gamma_t} is out of [0, 1]"
        );
    }
}

#[test]
fn empty_at_schedule_matches_none_bit_for_bit() {
    let empty = SolveParams::with_restart(RestartSchedule::At(vec![]));
    let none = SolveParams::with_restart(RestartSchedule::Never);
    for t in 0..300 {
        let a = discount(t, &empty);
        let b = discount(t, &none);
        assert_eq!(a.alpha_t.to_bits(), b.alpha_t.to_bits(), "alpha at {t}");
        assert_eq!(a.beta_t.to_bits(), b.beta_t.to_bits(), "beta at {t}");
        assert_eq!(a.gamma_t.to_bits(), b.gamma_t.to_bits(), "gamma at {t}");
    }
}

#[test]
fn unsorted_at_schedule_matches_sorted_bit_for_bit() {
    let unsorted = SolveParams::with_restart(RestartSchedule::At(vec![64, 4, 16]));
    let sorted = SolveParams::with_restart(RestartSchedule::At(vec![4, 16, 64]));
    for t in 0..300 {
        let a = discount(t, &unsorted);
        let b = discount(t, &sorted);
        assert_eq!(a.alpha_t.to_bits(), b.alpha_t.to_bits(), "alpha at {t}");
        assert_eq!(a.beta_t.to_bits(), b.beta_t.to_bits(), "beta at {t}");
        assert_eq!(a.gamma_t.to_bits(), b.gamma_t.to_bits(), "gamma at {t}");
    }
}
