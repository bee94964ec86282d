use std::collections::HashMap;
use viper::bls::{fr_add, fr_from_u64};
use viper::errors::ViperError;
use viper::mkhs::Mkhs;

#[test]
fn test_single_signature() {
    let n = 2usize;
    let t = 2usize;

    let mkhs = Mkhs::setup(n, t);
    let id: u64 = rand::random();
    let key = mkhs.generate_keys(id);

    let messages = vec![fr_from_u64(2), fr_from_u64(10)];

    let signature = mkhs.sign(&key.sk, &messages).unwrap();
    let check = mkhs.verify(&HashMap::from([(id, key.pk)]), &messages, &signature);

    assert!(check.is_ok());
}

#[test]
fn test_aggregated_signature() {
    let n = 2usize;
    let t = 2usize;

    let mkhs = Mkhs::setup(n, t);

    // First user
    let id: u64 = rand::random();
    let key = mkhs.generate_keys(id);

    let messages = vec![fr_from_u64(2), fr_from_u64(10)];
    let signature = mkhs.sign(&key.sk, &messages).unwrap();

    // Second user
    let id2: u64 = rand::random();
    let key2 = mkhs.generate_keys(id2);

    let messages2 = vec![fr_from_u64(2), fr_from_u64(10)];
    let signature2 = mkhs.sign(&key2.sk, &messages2).unwrap();

    // Combined signatures
    let mut combined_messages = Vec::new();
    for i in 0..messages.len() {
        combined_messages.push(fr_add(&messages[i], &messages2[i]));
    }
    let combined_signatures = mkhs.eval(&vec![signature, signature2]);

    let check = mkhs.verify(
        &HashMap::from([(id, key.pk), (id2, key2.pk)]),
        &combined_messages,
        &combined_signatures,
    );
    println!("check: {:?}", check);
    assert!(check.is_ok());
}

#[test]
fn wrong_message_fails_verification() {
    let mkhs = Mkhs::setup(1, 2);
    let key = mkhs.generate_keys(42);
    let messages = vec![fr_from_u64(2), fr_from_u64(10)];
    let signature = mkhs.sign(&key.sk, &messages).unwrap();

    let other = vec![fr_from_u64(3), fr_from_u64(10)];
    let check = mkhs.verify(&HashMap::from([(42u64, key.pk)]), &other, &signature);
    assert!(matches!(check, Err(ViperError::SignatureVerifyFailure)));
}

#[test]
fn missing_public_key_fails_verification() {
    let mkhs = Mkhs::setup(1, 1);
    let key = mkhs.generate_keys(7);
    let messages = vec![fr_from_u64(5)];
    let signature = mkhs.sign(&key.sk, &messages).unwrap();

    let empty: HashMap<u64, viper::mkhs::PK> = HashMap::new();
    let check = mkhs.verify(&empty, &messages, &signature);
    assert!(matches!(check, Err(ViperError::SignatureVerifyFailure)));
}

#[test]
fn signer_id_zero_cannot_sign() {
    let mkhs = Mkhs::setup(1, 1);
    let key = mkhs.generate_keys(0);
    let messages = vec![fr_from_u64(5)];
    assert!(matches!(
        mkhs.sign(&key.sk, &messages),
        Err(ViperError::InvariantViolation)
    ));
}

#[test]
fn same_signer_shares_fold_into_one() {
    let mkhs = Mkhs::setup(2, 2);
    let key = mkhs.generate_keys(9);
    let messages = vec![fr_from_u64(1), fr_from_u64(2)];
    let s1 = mkhs.sign(&key.sk, &messages).unwrap();
    let s2 = mkhs.sign(&key.sk, &messages).unwrap();
    let folded = mkhs.eval(&vec![s1, s2]);
    assert_eq!(folded.lams.len(), 1);
    assert_eq!(folded.lams[0].client_id, 9);
}

#[test]
fn single_signature_aggregation_is_a_no_op() {
    let mkhs = Mkhs::setup(1, 2);
    let key = mkhs.generate_keys(3);
    let messages = vec![fr_from_u64(4), fr_from_u64(8)];
    let signature = mkhs.sign(&key.sk, &messages).unwrap();
    let aggregated = mkhs.eval(&vec![signature.clone()]);

    assert_eq!(aggregated.lams.len(), signature.lams.len());
    assert_eq!(aggregated.lams[0].client_id, signature.lams[0].client_id);
    let pks = HashMap::from([(3u64, key.pk)]);
    assert!(mkhs.verify(&pks, &messages, &signature).is_ok());
    assert!(mkhs.verify(&pks, &messages, &aggregated).is_ok());
}

#[test]
fn empty_signature_over_empty_signer_set_verifies() {
    // Boundary behavior, documented by this test: aggregating no
    // signatures yields an empty share list, and verifying it against
    // an empty key set and an empty message row is accepted.
    let mkhs = Mkhs::setup(2, 2);
    let empty_sig = mkhs.eval(&vec![]);
    assert_eq!(empty_sig.lams.len(), 0);
    let pks: HashMap<u64, viper::mkhs::PK> = HashMap::new();
    let check = mkhs.verify(&pks, &vec![], &empty_sig);
    assert!(check.is_ok());
}

#[test]
fn assembled_signature_verifies() {
    let mkhs = Mkhs::setup(1, 2);
    let key = mkhs.generate_keys(5);
    let messages = vec![fr_from_u64(7), fr_from_u64(9)];
    let blind_r = viper::bls::fr_rand();
    let blind_s = viper::bls::fr_rand();
    let z_inv = viper::bls::fr_inverse_of_id(5).unwrap();
    let signature = mkhs.assemble_signature(&key.sk, &messages, &blind_r, &blind_s, &z_inv);
    let check = mkhs.verify(&HashMap::from([(5u64, key.pk)]), &messages, &signature);
    assert!(check.is_ok());
}
