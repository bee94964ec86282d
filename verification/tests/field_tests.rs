use viper::field::{add_mod, ext_gcd, inverse_or_zero, mod_inverse, mul_mod, sub_mod};

#[test]
fn residue_operations_match_arithmetic() {
    assert_eq!(add_mod(5, 6, 7), 4);
    assert_eq!(sub_mod(2, 6, 7), 3);
    assert_eq!(mul_mod(5, 6, 7), 2);
}

#[test]
fn modular_inverse_of_three_mod_seven() {
    assert_eq!(mod_inverse(3, 7), Some(5));
    assert_eq!(mul_mod(3, 5, 7), 1);
}

#[test]
fn non_coprime_values_have_no_inverse() {
    assert_eq!(mod_inverse(4, 8), None);
    assert_eq!(mod_inverse(0, 8), None);
    assert_eq!(inverse_or_zero(6, 9), 0);
}

#[test]
fn gcd_witness_is_a_common_divisor() {
    let (g, _) = ext_gcd(12, 18);
    assert_eq!(g, 6);
    let (g1, u1) = ext_gcd(35, 64);
    assert_eq!(g1, 1);
    assert_eq!(mul_mod(35, u1, 64), 1);
}
