use apto::{ApplicationKnob, ConstantKnob, Tunable};

#[test]
fn test_app_knob() {
    let mut knob: ApplicationKnob<u64> = ApplicationKnob::new("dummy".to_string(), vec![1, 2, 3], 1);
    assert_eq!(*knob.possible_values(), vec![1, 2, 3]);
    assert_eq!(knob.get(), 1);
    knob.set(3);
    assert_eq!(knob.get(), 3);
    knob.set(100);
    assert_eq!(knob.get(), 100);
}

#[test]
fn test_tunable_names() {
    let knob: ApplicationKnob<u64> = ApplicationKnob::new("dummy".to_string(), vec![1, 2, 3], 1);
    assert_eq!(knob.name(), "dummy");
}

#[test]
fn test_constant_knob() {
    let knob: ConstantKnob<u64> = ConstantKnob::new("dummy".to_string(), 10);
    assert_eq!(knob.name(), "dummy");
    assert_eq!(knob.get(), 10);
    assert_eq!(*knob.possible_values(), vec![10u64]);
}

#[test]
fn application_knob_always_asks_for_its_hook() {
    let mut knob: ApplicationKnob<u64> = ApplicationKnob::new("cores".to_string(), vec![2, 4], 2);
    assert!(knob.set(2));
    assert!(knob.set(4));
    knob.apply(2);
    assert_eq!(knob.get(), 2);
}

#[test]
fn constant_knob_set_to_its_value_changes_nothing() {
    let mut knob: ConstantKnob<u64> = ConstantKnob::new("fixed".to_string(), 7);
    assert!(!knob.set(7));
    assert_eq!(knob.get(), 7);
}
