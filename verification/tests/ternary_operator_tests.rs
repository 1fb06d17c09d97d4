use rusty_utils::ternary_operator;

#[test]
fn ternary_operator_integers() {
    let result = ternary_operator(true, 2, 6);
    assert_eq!(result, 2);

    let result = ternary_operator(false, 2, 6);
    assert_eq!(result, 6)
}

#[test]
fn ternary_operator_floats() {
    let result = ternary_operator(true, 2.1, 6.6);
    assert_eq!(result, 2.1);

    let result = ternary_operator(false, 2.1, 6.6);
    assert_eq!(result, 6.6)
}

#[test]
fn ternary_operator_bools() {
    let result = ternary_operator(true, true, false);
    assert_eq!(result, true);

    let result = ternary_operator(false, true, false);
    assert_eq!(result, false)
}

#[test]
fn ternary_operator_nested() {
    let result = ternary_operator(true, ternary_operator(true, 1, 0), 2);
    assert_eq!(result, 1);

    let result = ternary_operator(true, ternary_operator(false, 1, 0), 2);
    assert_eq!(result, 0)
}

#[test]
fn ternary_operator_nested_unused_branch() {
    assert_eq!(ternary_operator(false, ternary_operator(true, 1, 0), 2), 2);
    assert_eq!(ternary_operator(false, ternary_operator(false, 1, 0), 2), 2);
}

#[test]
fn ternary_operator_owned_values() {
    let yes = String::from("Even");
    let no = String::from("Odd");
    assert_eq!(ternary_operator(4 % 2 == 0, yes.clone(), no.clone()), "Even");
    assert_eq!(ternary_operator(7 % 2 == 0, yes, no), "Odd");
}

#[test]
fn ternary_operator_equal_candidates() {
    assert_eq!(ternary_operator(true, 5u8, 5u8), 5);
    assert_eq!(ternary_operator(false, 5u8, 5u8), 5);
}

#[test]
fn ternary_operator_both_candidates_are_evaluated() {
    let mut calls = 0;
    let mut next = || {
        calls += 1;
        calls
    };
    let first = next();
    let second = next();
    assert_eq!(ternary_operator(true, first, second), 1);
    assert_eq!(calls, 2);
}

#[test]
fn ternary_operator_options() {
    let some: Option<i32> = Some(42);
    let none: Option<i32> = None;
    assert_eq!(ternary_operator(true, some, none), Some(42));
    assert_eq!(ternary_operator(false, some, none), None);
}
