use netauth::secure_eq;

#[test]
fn secure_eq_equal_slices() {
    assert!(secure_eq(&[1, 2, 3], &[1, 2, 3]));
}

#[test]
fn secure_eq_detects_difference_anywhere() {
    assert!(!secure_eq(&[1, 2, 3], &[1, 2, 4]));
    assert!(!secure_eq(&[0, 2, 3], &[1, 2, 3]));
}

#[test]
fn secure_eq_unequal_lengths() {
    assert!(!secure_eq(&[1, 2, 3], &[1, 2]));
    assert!(!secure_eq(&[], &[0]));
}

#[test]
fn secure_eq_empty_slices() {
    assert!(secure_eq(&[], &[]));
}

#[test]
fn secure_eq_matches_ordinary_equality() {
    let samples: Vec<Vec<u8>> = vec![
        vec![],
        vec![0],
        vec![255],
        vec![1, 2, 3],
        vec![1, 2, 3, 4],
        vec![3, 2, 1],
    ];
    for a in &samples {
        for b in &samples {
            assert_eq!(secure_eq(a.as_slice(), b.as_slice()), a == b);
        }
    }
}
