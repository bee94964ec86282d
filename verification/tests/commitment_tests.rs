use viper::commitment::Commitment;
use viper::ec::Point;
use viper::errors::ViperError;

#[test]
fn test_commitment() {
    let w: i64 = 5;
    let r: i64 = 7;
    let commitment = Commitment::commit(w, r);
    assert!(commitment.open(w, r).is_ok());
}

#[test]
fn test_invalid_commitment() {
    let w: i64 = 5;
    let r: i64 = 7;
    let commitment = Commitment::commit(w, r);
    assert!(commitment.open(10, r).is_err());
}

#[test]
fn test_add_commitment() {
    let w1: i64 = 5;
    let r1: i64 = 7;
    let c1 = Commitment::commit(w1, r1);

    let w2: i64 = 123;
    let r2: i64 = 321;
    let c2 = Commitment::commit(w2, r2);

    let sum = c1.add(&c2);

    assert!(sum.open(w1 + w2, r1 + r2).is_ok());
}

#[test]
fn test_invalid_add_commitment() {
    let w1: i64 = 5;
    let r1: i64 = 7;
    let c1 = Commitment::commit(w1, r1);

    let w2: i64 = 123;
    let r2: i64 = 321;
    let c2 = Commitment::commit(w2, r2);

    let sum = c1.add(&c2);

    assert!(sum.open(w1 - w2, r1 + r2).is_err());
}

#[test]
fn commit_off_by_one_fails() {
    let commitment = Commitment::commit(41, 13);
    assert!(commitment.open(42, 13).is_err());
    assert!(commitment.open(41, 13).is_ok());
}

#[test]
fn commit_zero_is_blinding_term() {
    let commitment = Commitment::commit(0, 9);
    assert_eq!(commitment.c, Point::default().mul(9));
    assert!(commitment.open(0, 9).is_ok());
}

#[test]
fn open_failure_is_commitment_open_failure() {
    let commitment = Commitment::commit(3, 4);
    assert!(matches!(
        commitment.open(4, 4),
        Err(ViperError::CommitmentOpenFailure)
    ));
}

#[test]
fn sum_of_commitments_folds_points() {
    let c1 = Commitment::commit(1, 2);
    let c2 = Commitment::commit(3, 4);
    let c3 = Commitment::commit(5, 6);
    let total = Commitment::sum(&vec![c1, c2, c3]);
    let by_hand = c1.add(&c2).add(&c3);
    assert_eq!(total, by_hand);
    assert_eq!(Commitment::sum(&vec![c1]), c1);
}
