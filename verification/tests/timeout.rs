use holochain_core_types::timeout::Timeout;

#[test]
fn timeout_keeps_its_milliseconds() {
    assert_eq!(Timeout::new(0).as_millis(), 0);
    assert_eq!(Timeout::new(1500).as_millis(), 1500);
    assert_eq!(Timeout::new(usize::MAX).as_millis(), usize::MAX as u64);
}

#[test]
fn timeout_defaults_to_a_minute() {
    assert_eq!(Timeout::default().as_millis(), 60000);
    assert_eq!(Timeout::default(), Timeout::new(60000));
}

#[test]
fn timeout_from_milliseconds() {
    assert_eq!(Timeout::from(250), Timeout::new(250));
    assert_ne!(Timeout::from(250), Timeout::new(251));
    let t: Timeout = 7usize.into();
    assert_eq!(t.clone().as_millis(), 7);
}
