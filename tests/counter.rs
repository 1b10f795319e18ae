use chatting::Counter;

#[test]
fn counter_admits_first_limit_messages() {
    let mut c = Counter::new(2);
    assert!(c.check());
    c.add();
    assert!(c.check());
    c.add();
    assert!(!c.check());
    c.add();
    assert!(!c.check());
}

#[test]
fn counter_reset_opens_quota_again() {
    let mut c = Counter::new(1);
    c.add();
    assert!(!c.check());
    c.reset();
    assert!(c.check());
}

#[test]
fn counter_with_zero_limit_admits_nothing() {
    let c = Counter::new(0);
    assert!(!c.check());
}

#[test]
fn counter_saturates_instead_of_overflowing() {
    let mut c = Counter::new(u16::MAX);
    for _ in 0..70000u32 {
        c.add();
    }
    assert!(!c.check());
    c.reset();
    assert!(c.check());
}
