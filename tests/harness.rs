use microbench::allocation::{allocation_values, make_obj, make_value, run_allocation_loop};
use microbench::decimal::{push_decimal, push_signed_decimal};
use microbench::reference::{build_input, f, input_length, run_reference_loop};
use microbench::report::{length_line, time_line};

#[test]
fn input_length_is_template_times_repetitions() {
    let s = build_input("Lorem ipsum ", 1000);
    assert_eq!(input_length(&s), 12 * 1000);
    assert!(s.starts_with("Lorem ipsum Lorem"));
}

#[test]
fn input_length_counts_bytes() {
    let s = build_input("é", 4);
    assert_eq!(input_length(&s), 8);
    assert_eq!(s, "éééé");
}

#[test]
fn input_of_zero_repetitions_is_empty() {
    let s = build_input("ab", 0);
    assert_eq!(input_length(&s), 0);
    assert_eq!(length_line(input_length(&s)), "String length: 0");
}

#[test]
fn scenario_template_ab_five_times() {
    let s = build_input("ab", 5);
    assert_eq!(s, "ababababab");
    assert_eq!(input_length(&s), 10);
    assert_eq!(length_line(input_length(&s)), "String length: 10");
}

#[test]
fn reference_call_returns_the_same_string() {
    let s = build_input("ab", 3);
    let t = f(&s);
    assert!(std::ptr::eq(t, &s));
    assert!(std::ptr::eq(t.as_ptr(), s.as_ptr()));
}

#[test]
fn reference_loop_leaves_input_untouched() {
    let s = build_input("xy", 100);
    let before = s.as_ptr();
    run_reference_loop(&s, 1000);
    assert_eq!(s.as_ptr(), before);
    assert_eq!(input_length(&s), 200);
}

#[test]
fn make_obj_formats_prefix_and_index() {
    assert_eq!(make_obj(42), "prefix_42");
    assert_eq!(make_obj(0), "prefix_0");
    assert_eq!(make_obj(999999), "prefix_999999");
}

#[test]
fn make_obj_negative_and_extreme_indices() {
    assert_eq!(make_obj(-7), "prefix_-7");
    assert_eq!(make_obj(i32::MIN), "prefix_-2147483648");
    assert_eq!(make_obj(i32::MAX), "prefix_2147483647");
}

#[test]
fn make_value_with_other_prefix() {
    assert_eq!(make_value("x_", 10), "x_10");
    assert_eq!(make_value("", 5), "5");
}

#[test]
fn scenario_prefix_x_three_iterations() {
    let values = allocation_values("x_", 3);
    assert_eq!(values, vec!["x_0".to_string(), "x_1".to_string(), "x_2".to_string()]);
}

#[test]
fn allocation_values_are_distinct() {
    let values = allocation_values("prefix_", 200);
    assert_eq!(values.len(), 200);
    for i in 0..values.len() {
        assert_eq!(values[i], format!("prefix_{}", i));
        for j in 0..i {
            assert_ne!(values[i], values[j]);
        }
    }
}

#[test]
fn allocation_values_of_no_iterations() {
    assert!(allocation_values("x_", 0).is_empty());
    assert!(allocation_values("x_", -3).is_empty());
}

#[test]
fn allocation_loop_runs() {
    run_allocation_loop(1000);
    run_allocation_loop(0);
}

#[test]
fn decimal_text_matches_display() {
    for n in [0u64, 1, 9, 10, 11, 99, 100, 12345, u64::MAX] {
        let mut s = String::from("n=");
        push_decimal(&mut s, n);
        assert_eq!(s, format!("n={}", n));
    }
    for i in [0i64, -1, -10, 77, i64::MIN, i64::MAX] {
        let mut s = String::new();
        push_signed_decimal(&mut s, i);
        assert_eq!(s, format!("{}", i));
    }
}

#[test]
fn length_line_format() {
    assert_eq!(length_line(12000000), "String length: 12000000");
}

#[test]
fn time_line_rounds_to_microseconds() {
    assert_eq!(time_line(1_234_567_891), "Time: 1.234568 s");
    assert_eq!(time_line(1_234_567_491), "Time: 1.234567 s");
    assert_eq!(time_line(0), "Time: 0.000000 s");
    assert_eq!(time_line(499), "Time: 0.000000 s");
    assert_eq!(time_line(500), "Time: 0.000001 s");
    assert_eq!(time_line(999_999_600), "Time: 1.000000 s");
    assert_eq!(time_line(12_000_000_000), "Time: 12.000000 s");
}

#[test]
fn time_line_keeps_order() {
    let shorter = time_line(3_000_100);
    let longer = time_line(3_000_900);
    assert_eq!(shorter, "Time: 0.003000 s");
    assert_eq!(longer, "Time: 0.003001 s");
    assert!(shorter <= longer);
}

#[test]
fn two_runs_print_the_same_shape() {
    let first = length_line(input_length(&build_input("ab", 5)));
    let second = length_line(input_length(&build_input("ab", 5)));
    assert_eq!(first, second);
    for nanos in [0u64, 1_500, 987_654_321, 61_000_000_000] {
        let line = time_line(nanos);
        assert!(line.starts_with("Time: "));
        assert!(line.ends_with(" s"));
        let number = &line[6..line.len() - 2];
        let (whole, frac) = number.split_once('.').unwrap();
        assert!(!whole.is_empty() && whole.chars().all(|c| c.is_ascii_digit()));
        assert_eq!(frac.len(), 6);
        assert!(frac.chars().all(|c| c.is_ascii_digit()));
    }
}
