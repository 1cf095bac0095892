use flowy_document_infra::{trim, Attribute, Delta, Interval, Operation};

fn bold() -> Attribute {
    Attribute::new("bold", "true")
}

#[test]
fn trim_removes_a_trailing_plain_retain() {
    let mut delta = Delta {
        ops: vec![Operation::Insert("abc".to_string(), vec![]), Operation::Retain(4, vec![])],
    };
    trim(&mut delta);
    assert_eq!(delta, Delta { ops: vec![Operation::Insert("abc".to_string(), vec![])] });
}

#[test]
fn trim_removes_every_trailing_plain_retain() {
    let mut delta = Delta {
        ops: vec![
            Operation::Retain(1, vec![]),
            Operation::Delete(2),
            Operation::Retain(3, vec![]),
            Operation::Retain(4, vec![]),
        ],
    };
    trim(&mut delta);
    assert_eq!(delta, Delta { ops: vec![Operation::Retain(1, vec![]), Operation::Delete(2)] });
}

#[test]
fn trim_keeps_a_trailing_retain_with_attributes() {
    let mut delta = Delta {
        ops: vec![Operation::Retain(2, vec![]), Operation::Retain(3, vec![bold()])],
    };
    trim(&mut delta);
    assert_eq!(
        delta,
        Delta { ops: vec![Operation::Retain(2, vec![]), Operation::Retain(3, vec![bold()])] }
    );
}

#[test]
fn trim_keeps_trailing_insert_and_delete() {
    let mut a = Delta { ops: vec![Operation::Retain(2, vec![]), Operation::Delete(1)] };
    trim(&mut a);
    assert_eq!(a, Delta { ops: vec![Operation::Retain(2, vec![]), Operation::Delete(1)] });
    let mut b = Delta { ops: vec![Operation::Insert("x".to_string(), vec![])] };
    trim(&mut b);
    assert_eq!(b, Delta { ops: vec![Operation::Insert("x".to_string(), vec![])] });
}

#[test]
fn trim_of_only_plain_retains_is_empty() {
    let mut delta = Delta { ops: vec![Operation::Retain(5, vec![]), Operation::Retain(1, vec![])] };
    trim(&mut delta);
    assert_eq!(delta, Delta { ops: vec![] });
    assert!(delta.is_empty());
}

#[test]
fn trim_of_the_empty_delta_is_empty() {
    let mut delta = Delta::new();
    trim(&mut delta);
    assert_eq!(delta, Delta { ops: vec![] });
}

#[test]
fn trim_is_idempotent() {
    let samples = vec![
        Delta { ops: vec![] },
        Delta { ops: vec![Operation::Retain(3, vec![])] },
        Delta {
            ops: vec![
                Operation::Insert("ab".to_string(), vec![bold()]),
                Operation::Retain(3, vec![]),
                Operation::Retain(7, vec![]),
            ],
        },
        Delta { ops: vec![Operation::Retain(3, vec![]), Operation::Retain(1, vec![bold()])] },
        Delta {
            ops: vec![Operation::Retain(3, vec![]), Operation::Delete(2), Operation::Retain(9, vec![])],
        },
    ];
    for sample in samples {
        let mut once = sample.clone();
        trim(&mut once);
        let mut twice = once.clone();
        trim(&mut twice);
        assert_eq!(twice, once);
    }
}

#[test]
fn builder_skips_operations_of_length_zero() {
    let mut delta = Delta::new();
    delta.retain(0);
    delta.insert("");
    delta.delete(0);
    assert_eq!(delta, Delta { ops: vec![] });
    assert_eq!(delta.len(), 0);
}

#[test]
fn builder_appends_in_order() {
    let mut delta = Delta::new();
    delta.retain(2);
    delta.insert("hi");
    delta.delete(4);
    assert_eq!(
        delta,
        Delta {
            ops: vec![
                Operation::Retain(2, vec![]),
                Operation::Insert("hi".to_string(), vec![]),
                Operation::Delete(4),
            ],
        }
    );
    assert_eq!(delta.len(), 3);
    assert!(!delta.is_empty());
    assert!(!delta.ends_in_plain_retain());
}

#[test]
fn ends_in_plain_retain_looks_at_the_last_operation_only() {
    let plain = Delta { ops: vec![Operation::Delete(1), Operation::Retain(2, vec![])] };
    assert!(plain.ends_in_plain_retain());
    let formatted = Delta { ops: vec![Operation::Retain(2, vec![bold()])] };
    assert!(!formatted.ends_in_plain_retain());
    let covered = Delta { ops: vec![Operation::Retain(2, vec![]), Operation::Delete(1)] };
    assert!(!covered.ends_in_plain_retain());
    assert!(!Delta::new().ends_in_plain_retain());
}

#[test]
fn clone_copies_every_operation() {
    let delta = Delta {
        ops: vec![
            Operation::Retain(2, vec![bold(), Attribute::remove("italic")]),
            Operation::Insert("hi".to_string(), vec![bold()]),
            Operation::Delete(4),
        ],
    };
    assert_eq!(delta.clone(), delta);
}

#[test]
fn attribute_holds_a_value_or_the_remove_marker() {
    let set = Attribute::new("bold", "true");
    assert_eq!(set.key, "bold");
    assert_eq!(set.value, Some("true".to_string()));
    assert!(!set.is_remove());
    let unset = Attribute::remove("bold");
    assert_eq!(unset.key, "bold");
    assert_eq!(unset.value, None);
    assert!(unset.is_remove());
    assert_eq!(set.clone(), set);
    assert_eq!(unset.clone(), unset);
}

#[test]
fn interval_is_half_open() {
    let interval = Interval::new(2, 5);
    assert_eq!(interval.start(), 2);
    assert_eq!(interval.end(), 5);
    assert_eq!(interval.size(), 3);
    assert!(!interval.is_empty());
}

#[test]
fn interval_of_length_zero_is_empty() {
    let interval = Interval::new(7, 7);
    assert_eq!(interval.size(), 0);
    assert!(interval.is_empty());
    assert_eq!(Interval::new(0, 0).size(), 0);
}
