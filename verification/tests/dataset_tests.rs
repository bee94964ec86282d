use ark_bls12_381::Fr;
use ark_ff::{BigInteger, PrimeField};
use num_bigint::BigInt;

#[test]
fn test_sample_values() {
    let a = BigInt::from(100);
    let b = BigInt::from(200);

    let a_u64: u64 = (&a).try_into().unwrap();
    let b_u64: u64 = (&b).try_into().unwrap();
    let a_fr = Fr::from(a_u64);
    let b_fr = Fr::from(b_u64);

    let res = a_fr + b_fr;
    let temp = res.into_bigint().to_bytes_le();
    let temp = BigInt::from_signed_bytes_le(temp.as_slice());
    println!("{}", temp);
}

#[test]
fn dataset_keeps_its_cells_and_shape() {
    let data = viper::dataset::Dataset::new(vec![vec![1, 2, 3], vec![4, 5, 6]]);
    assert_eq!(data.dataset, vec![vec![1, 2, 3], vec![4, 5, 6]]);
    let as_field = data.fr();
    assert_eq!(as_field.len(), 2);
    assert_eq!(as_field[0].len(), 3);
    assert_eq!(as_field[1].len(), 3);
    let copy = data.clone();
    assert_eq!(copy.dataset, data.dataset);
}
