use boids::wide::Wide;

fn digits(w: Wide) -> [u64; 5] {
    [w.d0, w.d1, w.d2, w.d3, w.d4]
}

#[test]
fn product_of_small_numbers() {
    assert_eq!(digits(Wide::product(0, 0)), [0, 0, 0, 0, 0]);
    assert_eq!(digits(Wide::product(6, 7)), [42, 0, 0, 0, 0]);
    assert_eq!(digits(Wide::product(1 << 64, 1 << 64)), [0, 0, 1, 0, 0]);
    assert_eq!(digits(Wide::product(u64::MAX as u128, u64::MAX as u128)), [1, u64::MAX - 1, 0, 0, 0]);
}

#[test]
fn product_of_the_largest_numbers() {
    // (2^128 - 1)^2 = 2^256 - 2^129 + 1
    assert_eq!(
        digits(Wide::product(u128::MAX, u128::MAX)),
        [1, 0, u64::MAX - 1, u64::MAX, 0]
    );
    assert_eq!(digits(Wide::product(u128::MAX, 1)), [u64::MAX, u64::MAX, 0, 0, 0]);
    assert_eq!(digits(Wide::product(1 << 127, 1 << 127)), [0, 0, 0, 1 << 62, 0]);
}

#[test]
fn product_carries_through_the_middle() {
    // (2^128 - 1) * 2^64 = 2^192 - 2^64
    assert_eq!(digits(Wide::product(u128::MAX, 1 << 64)), [0, u64::MAX, u64::MAX, 0, 0]);
    // (2^65 - 1)^2 = 2^130 - 2^66 + 1
    let a = (1u128 << 65) - 1;
    assert_eq!(digits(Wide::product(a, a)), [1, u64::MAX - 3, 3, 0, 0]);
}

#[test]
fn times_a_digit() {
    let one = Wide::product(1, 1);
    assert_eq!(digits(one.times(9)), [9, 0, 0, 0, 0]);
    let most = Wide::product(u128::MAX, u128::MAX);
    assert_eq!(digits(most.times(0)), [0, 0, 0, 0, 0]);
    assert_eq!(digits(most.times(1)), [1, 0, u64::MAX - 1, u64::MAX, 0]);
    // (2^256 - 2^129 + 1) * 2 = 2^257 - 2^130 + 2
    assert_eq!(digits(most.times(2)), [2, 0, u64::MAX - 3, u64::MAX, 1]);
    // (2^256 - 2^129 + 1) * (2^64 - 1)
    assert_eq!(
        digits(most.times(u64::MAX)),
        [u64::MAX, 0, 2, u64::MAX - 1, u64::MAX - 1]
    );
}

#[test]
fn comparison_goes_by_the_highest_digit_that_differs() {
    let w = |d: [u64; 5]| Wide { d0: d[0], d1: d[1], d2: d[2], d3: d[3], d4: d[4] };
    assert!(w([0, 0, 0, 0, 0]).at_most(&w([0, 0, 0, 0, 0])));
    assert!(w([5, 0, 0, 0, 0]).at_most(&w([5, 0, 0, 0, 0])));
    assert!(w([5, 0, 0, 0, 0]).at_most(&w([6, 0, 0, 0, 0])));
    assert!(!w([6, 0, 0, 0, 0]).at_most(&w([5, 0, 0, 0, 0])));
    assert!(w([u64::MAX, u64::MAX, u64::MAX, u64::MAX, 0]).at_most(&w([0, 0, 0, 0, 1])));
    assert!(!w([0, 0, 0, 0, 1]).at_most(&w([u64::MAX, u64::MAX, u64::MAX, u64::MAX, 0])));
    assert!(w([9, 1, 0, 0, 0]).at_most(&w([0, 2, 0, 0, 0])));
    assert!(!w([0, 0, 3, 0, 0]).at_most(&w([9, 9, 2, 0, 0])));
    assert!(w([9, 9, 9, 1, 7]).at_most(&w([0, 0, 0, 2, 7])));
}
