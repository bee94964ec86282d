use std::time::Instant;
use viper::ec::Point;
use viper::rho::pollards_rho;

#[test]
fn test_phollard_rho() {
    let w: i64 = 5;
    let g_w = Point::default().mul(w);

    let now = Instant::now();
    let value = pollards_rho(&Point::default(), &g_w).unwrap();
    println!("Phollar_rho time: {:.2?}", now.elapsed());
    assert_eq!(value, 5);
}

#[test]
fn rho_recovers_a_larger_scalar() {
    let w: i64 = 123456;
    let g_w = Point::default().mul(w);
    let value = pollards_rho(&Point::default(), &g_w).unwrap();
    assert_eq!(value as i64, w);
}

#[test]
fn rho_recovers_zero() {
    let value = pollards_rho(&Point::default(), &Point::infinity()).unwrap();
    assert_eq!(value, 0);
}
