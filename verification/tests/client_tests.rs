use std::collections::HashMap;
use viper::client::Client;
use viper::dataset::Dataset;
use viper::mkhs::Mkhs;

fn init_client(mkhs: &Mkhs, id: u64) -> Client {
    let client_id: u64 = id;
    let secret: i64 = 11;

    let dataset = Dataset::new(vec![vec![1, 2], vec![3, 4]]);

    let key_pair = mkhs.generate_keys(client_id);

    Client::new(client_id, key_pair.clone(), dataset.clone(), secret)
}

#[test]
fn test_single_client() {
    let mkhs = Mkhs::setup(1, 2);
    let client = init_client(&mkhs, 1);

    let commitments = client.compute_commitments();
    let mut flatten_dataset: Vec<i64> = Vec::new();
    for row in &client.dataset.dataset {
        for el in row {
            flatten_dataset.push(*el as i64);
        }
    }
    let check = Client::verify_commitment(&commitments, &flatten_dataset, client.secret);
    assert!(check.is_ok());

    let signature = client
        .compute_signature(&mkhs, &client.dataset.fr())
        .unwrap();
    let pk = HashMap::from([(client.id, client.key_pair.pk)]);
    let check = Client::verify_signature(&mkhs, &pk, &client.dataset.fr(), &signature);
    assert!(check.is_ok());
}

#[test]
fn test_multi_client() {
    let mkhs = Mkhs::setup(2, 2);

    let c1 = init_client(&mkhs, 1);
    let c2 = init_client(&mkhs, 2);

    let commitments1 = c1.compute_commitments();
    let signature1 = c1.compute_signature(&mkhs, &c1.dataset.fr()).unwrap();

    let commitments2 = c2.compute_commitments();
    let signature2 = c2.compute_signature(&mkhs, &c2.dataset.fr()).unwrap();

    let mut agg_commitment = Vec::new();
    for i in 0..commitments1.len() {
        agg_commitment.push(commitments1[i].add(&commitments2[i]));
    }
    let mut agg_signature = Vec::new();
    for i in 0..signature1.len() {
        agg_signature.push(mkhs.eval(&vec![signature1[i].clone(), signature2[i].clone()]));
    }

    let agg_dataset = Dataset::new(vec![vec![2, 4], vec![6, 8]]);
    let mut agg_dataset_flatten: Vec<i64> = Vec::new();
    for row in &agg_dataset.dataset {
        for el in row {
            agg_dataset_flatten.push(*el as i64);
        }
    }

    let check = Client::verify_commitment(
        &agg_commitment,
        &agg_dataset_flatten,
        c1.secret + c2.secret,
    );
    assert!(check.is_ok());

    let pk = HashMap::from([(c1.id, c1.key_pair.pk), (c2.id, c2.key_pair.pk)]);
    let check = Client::verify_signature(&mkhs, &pk, &agg_dataset.fr(), &agg_signature);
    assert!(check.is_ok());
}
