use lorenz::hue::{HueCycler, HUE_PERIOD};

#[test]
fn advances_by_the_increment() {
    let mut h = HueCycler::new(50);
    assert_eq!(h.current(), 0);
    assert_eq!(h.advance(), 50);
    assert_eq!(h.advance(), 100);
    assert_eq!(h.current(), 100);
    assert_eq!(h.increment(), 50);
}

#[test]
fn wraps_after_a_full_turn() {
    let mut h = HueCycler::new(50);
    for _ in 0..7199 {
        let v = h.advance();
        assert!(v < HUE_PERIOD);
    }
    assert_eq!(h.current(), 359_950);
    assert_eq!(h.advance(), 0);
}

#[test]
fn wraps_below_the_increment_when_it_does_not_divide() {
    let inc: u32 = 7;
    let mut h = HueCycler::new(inc);
    let k = (HUE_PERIOD + inc - 1) / inc;
    for _ in 0..k {
        assert!(h.advance() < HUE_PERIOD);
    }
    assert!(h.current() < inc);
}

#[test]
fn increment_beyond_a_turn() {
    let mut h = HueCycler::new(u32::MAX);
    assert_eq!(h.advance(), 0);
    assert_eq!(h.advance(), 0);
}

#[test]
fn reset_returns_to_zero() {
    let mut h = HueCycler::new(1_000);
    h.advance();
    h.reset();
    assert_eq!(h.current(), 0);
}
