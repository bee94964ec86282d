use viper::bls::{fr_from_u64, g2_generator, g2_hash_sha256, g2_mul};

#[test]
fn point_hashes_distinguish_points() {
    let g2 = g2_generator();
    let a = g2_mul(&g2, &fr_from_u64(2));
    let b = g2_mul(&g2, &fr_from_u64(3));
    let ha = g2_hash_sha256(&a);
    let hb = g2_hash_sha256(&b);
    assert_eq!(ha.len(), 32);
    assert_eq!(hb.len(), 32);
    assert_ne!(ha, hb);
}
