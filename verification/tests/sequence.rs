use collatz_search::sequence::step;

/// A third of `u128::MAX`: the odd number whose triple still fits while the
/// triple plus one does not.
const THIRD_OF_MAX: u128 = 0x5555_5555_5555_5555_5555_5555_5555_5555;

#[test]
fn step_halves_even_numbers() {
    assert_eq!(step(2), Some(1));
    assert_eq!(step(6), Some(3));
    assert_eq!(step(16), Some(8));
    assert_eq!(step(1 << 127), Some(1 << 126));
    assert_eq!(step(u128::MAX - 1), Some((1 << 127) - 1));
}

#[test]
fn step_of_an_even_number_is_smaller() {
    let mut m: u128 = 2;
    while m < 5000 {
        let next = step(m).expect("halving cannot overflow");
        assert_eq!(next, m / 2);
        assert!(next < m);
        m += 2;
    }
}

#[test]
fn step_of_zero_is_zero() {
    assert_eq!(step(0), Some(0));
}

#[test]
fn step_triples_odd_numbers_and_adds_one() {
    assert_eq!(step(1), Some(4));
    assert_eq!(step(3), Some(10));
    assert_eq!(step(5), Some(16));
    assert_eq!(step(27), Some(82));
    let mut m: u128 = 1;
    while m < 5000 {
        assert_eq!(step(m), Some(3 * m + 1));
        m += 2;
    }
}

#[test]
fn step_of_the_largest_odd_number_that_fits() {
    let m = THIRD_OF_MAX - 2;
    assert_eq!(step(m), Some(u128::MAX - 5));
    assert_eq!(step(m), m.checked_mul(3).and_then(|t| t.checked_add(1)));
}

#[test]
fn step_refuses_when_the_addition_overflows() {
    // 3 * m is exactly u128::MAX here, so only the addition fails.
    assert_eq!(THIRD_OF_MAX.checked_mul(3), Some(u128::MAX));
    assert_eq!(step(THIRD_OF_MAX), None);
}

#[test]
fn step_refuses_when_the_multiplication_overflows() {
    assert_eq!(step(THIRD_OF_MAX + 2), None);
    assert_eq!(step((1 << 127) + 1), None);
    assert_eq!(step(u128::MAX), None);
}
