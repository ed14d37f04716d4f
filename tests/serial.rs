use smithay::serial::{Serial, SerialCounter};

#[test]
fn serials_are_issued_in_order_from_one() {
    let mut counter = SerialCounter::new();
    let a = counter.next_serial();
    let b = counter.next_serial();
    assert_eq!(a, Serial(1));
    assert_eq!(b, Serial(2));
    assert_eq!(b.raw(), 2);
    assert!(b.is_no_older_than(&a));
    assert!(!a.is_no_older_than(&b));
    assert!(a.is_no_older_than(&a));
}

#[test]
fn serial_comparison_crosses_the_wrap() {
    let late = Serial(3);
    let early = Serial(u32::MAX - 2);
    assert!(late.is_no_older_than(&early));
    assert!(!early.is_no_older_than(&late));
    assert!(Serial(0x8000_0000).is_no_older_than(&Serial(1)));
    assert!(!Serial(0x8000_0001).is_no_older_than(&Serial(1)));
}
