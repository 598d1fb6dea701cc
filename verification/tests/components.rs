use choose_rand::helper::refcellify;
use choose_rand::prelude::{ChooseRng, FixedRng, Probable, Weighted, WEIGHT_ONE};
use choose_rand::rand::{cumulative_walk, extract_weights, validate_weights};

#[test]
fn validator_accepts_exact_sum() {
    assert!(validate_weights(&vec![250_000, 250_000, 500_000]));
    assert!(validate_weights(&vec![WEIGHT_ONE]));
}

#[test]
fn validator_rejects_other_sums() {
    assert!(!validate_weights(&vec![]));
    assert!(!validate_weights(&vec![900_000]));
    assert!(!validate_weights(&vec![600_000, 500_000]));
    // A huge weight may not even fit the running sum; it is still just "not 1".
    assert!(!validate_weights(&vec![u64::MAX, u64::MAX]));
}

#[test]
fn walk_follows_cumulative_intervals() {
    let ws = vec![100_000, 250_000, 500_000, 150_000];
    assert_eq!(cumulative_walk(&ws, 0), 0);
    assert_eq!(cumulative_walk(&ws, 99_999), 0);
    assert_eq!(cumulative_walk(&ws, 100_000), 1);
    assert_eq!(cumulative_walk(&ws, 349_999), 1);
    assert_eq!(cumulative_walk(&ws, 350_000), 2);
    assert_eq!(cumulative_walk(&ws, 849_999), 2);
    assert_eq!(cumulative_walk(&ws, 850_000), 3);
    assert_eq!(cumulative_walk(&ws, 999_999), 3);
}

#[test]
fn extraction_reads_weights_in_order() {
    let v = vec![
        Weighted { weight: 7, value: 'a' },
        Weighted { weight: 0, value: 'b' },
        Weighted { weight: 35, value: 'c' },
    ];
    assert_eq!(extract_weights(&v), vec![7, 0, 35]);
    assert_eq!(v[2].probability(), 35);
}

#[test]
fn fixed_rng_replays_and_bounds() {
    let mut rng = FixedRng::new(vec![3, WEIGHT_ONE + 5, 9]);
    assert_eq!(rng.draw(WEIGHT_ONE), 3);
    assert_eq!(rng.draw(WEIGHT_ONE), 5);
    assert_eq!(rng.draw(WEIGHT_ONE), 9);
    assert_eq!(rng.draw(WEIGHT_ONE), 3);

    let mut empty = FixedRng::new(Vec::new());
    assert_eq!(empty.draw(WEIGHT_ONE), 0);
}

#[test]
fn cell_handles_are_exclusive() {
    let cells = refcellify(vec![7u8]);
    let handle = cells[0].borrow_mut();
    // While the mutable handle is outstanding, no second handle can be taken.
    assert!(cells[0].try_borrow().is_err());
    assert!(cells[0].try_borrow_mut().is_err());
    drop(handle);
    assert!(cells[0].try_borrow_mut().is_ok());
}

#[test]
fn refcellify_wraps_each_item() {
    let cells = refcellify(vec![1u64, 2, 3]);
    assert_eq!(cells.len(), 3);
    *cells[1].borrow_mut() += 40;
    let seen: Vec<u64> = cells.iter().map(|c| *c.borrow()).collect();
    assert_eq!(seen, vec![1, 42, 3]);
}
