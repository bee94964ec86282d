use std::collections::HashMap;
use viper::aggregator::Aggregator;
use viper::client::Client;
use viper::dataset::Dataset;
use viper::mkhs::Mkhs;

/// The full round: two clients with identifiers 1 and 2 and blinding
/// secrets 11 and 13 each hold the matrix [[1,2],[3,4]]; the aggregator
/// sums commitments cell-wise, aggregates signatures row-wise, opens
/// the sums with the combined secret 24, and both verifications pass.
#[test]
fn end_to_end_round() {
    let mkhs = Mkhs::setup(2, 2);

    let key1 = mkhs.generate_keys(1);
    let key2 = mkhs.generate_keys(2);

    let client1 = Client::new(1, key1, Dataset::new(vec![vec![1, 2], vec![3, 4]]), 11);
    let client2 = Client::new(2, key2, Dataset::new(vec![vec![1, 2], vec![3, 4]]), 13);

    let commitments = vec![client1.compute_commitments(), client2.compute_commitments()];
    let signatures = vec![
        client1
            .compute_signature(&mkhs, &client1.dataset.fr())
            .unwrap(),
        client2
            .compute_signature(&mkhs, &client2.dataset.fr())
            .unwrap(),
    ];

    let aggregated_commitments = Aggregator::aggregate_commitments(&commitments);
    let aggregated_signatures = Aggregator::aggregate_signatures(&mkhs, &signatures);

    let aggregated_secret: i64 = 11 + 13;
    let opened = Aggregator::open_commitments(&aggregated_commitments, aggregated_secret).unwrap();
    assert_eq!(opened, vec![2, 4, 6, 8]);

    let check = Client::verify_commitment(&aggregated_commitments, &opened, aggregated_secret);
    assert!(check.is_ok());

    let sums = Dataset::new(vec![vec![2, 4], vec![6, 8]]);
    let pks = HashMap::from([
        (client1.id, client1.key_pair.pk.clone()),
        (client2.id, client2.key_pair.pk.clone()),
    ]);
    let check = Client::verify_signature(&mkhs, &pks, &sums.fr(), &aggregated_signatures);
    assert!(check.is_ok());
}

/// Aggregating a single client's commitments changes nothing.
#[test]
fn single_client_aggregation_is_identity() {
    let mkhs = Mkhs::setup(1, 2);
    let key = mkhs.generate_keys(1);
    let client = Client::new(1, key, Dataset::new(vec![vec![5, 6], vec![7, 8]]), 3);

    let commitments = client.compute_commitments();
    let aggregated = Aggregator::aggregate_commitments(&vec![commitments.clone()]);
    assert_eq!(aggregated, commitments);
}

/// A tampered aggregate sum is caught by the commitment verification.
#[test]
fn tampered_sum_fails_commitment_check() {
    let mkhs = Mkhs::setup(2, 1);
    let key1 = mkhs.generate_keys(1);
    let key2 = mkhs.generate_keys(2);
    let client1 = Client::new(1, key1, Dataset::new(vec![vec![10]]), 11);
    let client2 = Client::new(2, key2, Dataset::new(vec![vec![20]]), 13);

    let commitments = vec![client1.compute_commitments(), client2.compute_commitments()];
    let aggregated = Aggregator::aggregate_commitments(&commitments);

    assert!(Client::verify_commitment(&aggregated, &vec![30], 24).is_ok());
    assert!(Client::verify_commitment(&aggregated, &vec![31], 24).is_err());
}

/// Opening an empty commitment vector succeeds with an empty result.
#[test]
fn opening_no_commitments_succeeds() {
    let opened = Aggregator::open_commitments(&vec![], 7).unwrap();
    assert_eq!(opened.len(), 0);
}
