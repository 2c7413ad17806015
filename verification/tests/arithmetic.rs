use bleeding_heart::fixed::FP;
use bleeding_heart::fixed::LIM;
use bleeding_heart::fixed::add_clip;
use bleeding_heart::fixed::fpmul;
use bleeding_heart::fixed::isqrt;
use bleeding_heart::fixed::muldiv;
use bleeding_heart::fixed::sub_clip;

#[test]
fn add_clip_plain_and_saturating() {
    assert_eq!(add_clip(1, 2), 3);
    assert_eq!(add_clip(-5, 5), 0);
    assert_eq!(add_clip(LIM, LIM), LIM);
    assert_eq!(add_clip(-LIM, -LIM), -LIM);
    assert_eq!(add_clip(LIM, -1), LIM - 1);
}

#[test]
fn sub_clip_plain_and_saturating() {
    assert_eq!(sub_clip(10, 4), 6);
    assert_eq!(sub_clip(-LIM, LIM), -LIM);
    assert_eq!(sub_clip(LIM, -LIM), LIM);
}

#[test]
fn muldiv_rounds_toward_zero() {
    assert_eq!(muldiv(7, 1, 2), 3);
    assert_eq!(muldiv(-7, 1, 2), -3);
    assert_eq!(muldiv(7, -1, 2), -3);
    assert_eq!(muldiv(-7, -1, 2), 3);
    assert_eq!(muldiv(FP, FP, FP), FP);
    assert_eq!(muldiv(LIM, LIM, 1), LIM);
    assert_eq!(muldiv(-LIM, LIM, 1), -LIM);
}

#[test]
fn fpmul_is_scaled_product() {
    assert_eq!(fpmul(1500, 2000), 3000);
    assert_eq!(fpmul(1500, -2000), -3000);
    assert_eq!(fpmul(999, 1), 0);
    assert_eq!(fpmul(0, 123456), 0);
}

#[test]
fn isqrt_exact_values() {
    assert_eq!(isqrt(0), 0);
    assert_eq!(isqrt(1), 1);
    assert_eq!(isqrt(24), 4);
    assert_eq!(isqrt(25), 5);
    assert_eq!(isqrt(26), 5);
    assert_eq!(isqrt(25_000_000), 5000);
    assert_eq!(isqrt(1_000_000_000_000_000_000_000_000), 1_000_000_000_000);
}
