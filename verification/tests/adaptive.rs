use tieba_image_downloader::adaptive::{decrease, increase};

#[test]
fn increases_gradually_without_exceeding_maximum() {
    assert_eq!(increase(1, 32), 2);
    assert_eq!(increase(16, 32), 20);
    assert_eq!(increase(31, 32), 32);
    assert_eq!(increase(32, 32), 32);
}

#[test]
fn decreases_fast_but_never_reaches_zero() {
    assert_eq!(decrease(32), 16);
    assert_eq!(decrease(3), 1);
    assert_eq!(decrease(1), 1);
}

#[test]
fn increase_treats_a_zero_maximum_as_one() {
    assert_eq!(increase(0, 0), 1);
    assert_eq!(increase(5, 0), 1);
}

#[test]
fn increase_from_zero_reaches_one() {
    assert_eq!(increase(0, 32), 1);
}

#[test]
fn increase_above_the_maximum_falls_to_it() {
    assert_eq!(increase(40, 32), 32);
}

#[test]
fn decrease_of_zero_is_one() {
    assert_eq!(decrease(0), 1);
}

#[test]
fn halving_then_growing_stays_within_bounds() {
    let mut c = 32usize;
    for _ in 0..10 {
        c = decrease(c);
        assert!(c >= 1);
    }
    assert_eq!(c, 1);
    for _ in 0..40 {
        c = increase(c, 32);
        assert!(c >= 1 && c <= 32);
    }
    assert_eq!(c, 32);
}
