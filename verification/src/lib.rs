//! Iteration schedule of the Discounted CFR solver: when the cumulative strategy restarts, and
//! the integer bases from which each iteration's discount factors are computed.

pub mod discount;
pub mod laws;
pub mod restart;

pub use discount::{exploitability_check_due, solve_step, AveragingParams, DiscountBases};
pub use restart::{largest_power_of_four, latest_point, RestartSchedule};
