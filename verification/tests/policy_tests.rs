use loyalty_program::errors::Error;
use loyalty_program::policy::{compute_points, RewardRates};

fn rates(earn_rate: i128, min_purchase: i128) -> RewardRates {
    RewardRates { earn_rate, min_purchase }
}

#[test]
fn test_compute_points_exact_values() {
    assert_eq!(compute_points(100, &rates(10, 50)), Ok(10));
    assert_eq!(compute_points(50, &rates(10, 50)), Ok(5));
    assert_eq!(compute_points(109, &rates(10, 50)), Ok(10));
    assert_eq!(compute_points(7, &rates(1, 0)), Ok(7));
}

#[test]
fn test_compute_points_rejections() {
    assert_eq!(compute_points(0, &rates(10, 50)), Err(Error::InvalidAmount));
    assert_eq!(compute_points(-3, &rates(10, 50)), Err(Error::InvalidAmount));
    assert_eq!(compute_points(49, &rates(10, 50)), Err(Error::BelowMinimum));
    assert_eq!(compute_points(55, &rates(100, 50)), Err(Error::NoPointsEarned));
}

#[test]
fn test_compute_points_is_pure() {
    let r = rates(10, 50);
    let first = compute_points(100, &r);
    let second = compute_points(100, &r);
    assert_eq!(first, second);
}
