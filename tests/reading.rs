use mijiabt::mijiabt_data::{MijiaBtData, MijiaBtDataDto};

#[test]
fn new_and_get() {
    let d = MijiaBtData::new(215, 480);
    assert_eq!(d.get(), (215, 480));
}

#[test]
fn update_stores_both_values() {
    let mut d = MijiaBtData::new(215, 480);
    d.update(0, 12);
    assert_eq!(d.get(), (0, 12));
}

#[test]
fn merge_keeps_known_field_on_zero() {
    let mut d = MijiaBtData::new(215, 480);
    assert!(d.merge((0, 470)));
    assert_eq!(d.get(), (215, 470));
    assert!(d.merge((220, 0)));
    assert_eq!(d.get(), (220, 470));
}

#[test]
fn merge_of_zero_reading_is_no_change() {
    let mut d = MijiaBtData::new(215, 480);
    assert!(!d.merge((0, 0)));
    assert_eq!(d.get(), (215, 480));
}

#[test]
fn merge_of_same_reading_is_no_change() {
    let mut d = MijiaBtData::new(215, 480);
    assert!(!d.merge((215, 480)));
    assert!(!d.merge((215, 0)));
    assert_eq!(d.get(), (215, 480));
}

#[test]
fn merge_full_reading_replaces_both() {
    let mut d = MijiaBtData::new(0, 0);
    assert!(d.merge((190, 600)));
    assert_eq!(d.get(), (190, 600));
}

#[test]
fn repeated_reading_notifies_once() {
    let mut d = MijiaBtData::new(0, 0);
    let mut calls = 0;
    for _ in 0..5 {
        if d.merge((230, 450)) {
            calls += 1;
        }
    }
    assert_eq!(calls, 1);
}

#[test]
fn alternating_readings_notify_each() {
    let mut d = MijiaBtData::new(0, 0);
    let mut calls = 0;
    for i in 0..6 {
        let r = if i % 2 == 0 { (230, 450) } else { (231, 449) };
        if d.merge(r) {
            calls += 1;
        }
    }
    assert_eq!(calls, 6);
    assert_eq!(d.get(), (231, 449));
}

#[test]
fn dto_new() {
    let d = MijiaBtDataDto::new(12, 34);
    assert_eq!(d.temperature, 12);
    assert_eq!(d.humidity, 34);
}
