//! The witness checks, outcome combination and the JSON report line.

use num_bigint_etna::etna::PropertyResult;
use num_bigint_etna::harness::{
    check_is_multiple_of_zero, check_mul_does_not_panic, check_mul_square_all_ones,
    check_neg_isize_addassign, combine_outcomes, json_record, pr_into_result, select_property,
    Metrics, Property, Selection,
};
use num_bigint_etna::text::json_str;

#[test]
fn verdicts_read_as_statuses() {
    assert_eq!(pr_into_result(PropertyResult::Pass), Ok(()));
    assert_eq!(pr_into_result(PropertyResult::Discard), Ok(()));
    assert_eq!(pr_into_result(PropertyResult::Fail("boom".to_string())), Err("boom".to_string()));
}

#[test]
fn witness_checks_pass() {
    assert_eq!(check_is_multiple_of_zero(), Ok(()));
    assert_eq!(check_neg_isize_addassign(), Ok(()));
    assert_eq!(check_mul_square_all_ones(), Ok(()));
    assert_eq!(check_mul_does_not_panic(), Ok(()));
}

#[test]
fn outcomes_combine_to_the_first_failure_and_summed_metrics() {
    let outcomes = vec![
        (Ok(()), Metrics { inputs: 3, elapsed_us: 10 }),
        (Err("first".to_string()), Metrics { inputs: 4, elapsed_us: 20 }),
        (Ok(()), Metrics { inputs: 5, elapsed_us: 30 }),
        (Err("second".to_string()), Metrics { inputs: 6, elapsed_us: 40 }),
    ];
    let (status, m) = combine_outcomes(&outcomes);
    assert_eq!(status, Err("first".to_string()));
    assert_eq!(m.inputs, 18);
    assert_eq!(m.elapsed_us, 100);
}

#[test]
fn no_outcomes_combine_to_success() {
    let (status, m) = combine_outcomes(&Vec::new());
    assert_eq!(status, Ok(()));
    assert_eq!(m.inputs, 0);
    assert_eq!(m.elapsed_us, 0);
}

#[test]
fn json_strings_escape_quotes_backslashes_and_controls() {
    assert_eq!(json_str("plain"), "\"plain\"");
    assert_eq!(json_str(""), "\"\"");
    assert_eq!(
        json_str("a\"b\\c\nd\re\tf\u{1}g\u{1f}h"),
        "\"a\\\"b\\\\c\\nd\\re\\tf\\u0001g\\u001fh\""
    );
    assert_eq!(json_str("é ü"), "\"é ü\"");
}

#[test]
fn json_record_for_a_pass() {
    let line = json_record(
        "etna",
        "IsMultipleOfZero",
        "passed",
        Metrics { inputs: 1, elapsed_us: 1234 },
        None,
        None,
    );
    assert_eq!(
        line,
        "{\"status\":\"passed\",\"tests\":1,\"discards\":0,\"time\":\"1234us\",\"counterexample\":null,\"error\":null,\"tool\":\"etna\",\"property\":\"IsMultipleOfZero\"}"
    );
}

#[test]
fn json_record_for_a_failure() {
    let line = json_record(
        "proptest",
        "NegIsizeAddAssign",
        "failed",
        Metrics { inputs: 200, elapsed_us: 0 },
        Some("(1 \"2\")"),
        Some("oops"),
    );
    assert_eq!(
        line,
        "{\"status\":\"failed\",\"tests\":200,\"discards\":0,\"time\":\"0us\",\"counterexample\":\"(1 \\\"2\\\")\",\"error\":\"oops\",\"tool\":\"proptest\",\"property\":\"NegIsizeAddAssign\"}"
    );
}

#[test]
fn property_names_select_properties() {
    assert_eq!(select_property("All"), Some(Selection::All));
    assert_eq!(select_property("IsMultipleOfZero"), Some(Selection::One(Property::IsMultipleOfZero)));
    assert_eq!(
        select_property("ScalarDivByZeroPanics"),
        Some(Selection::One(Property::ScalarDivByZeroPanics))
    );
    assert_eq!(
        select_property("NegIsizeAddAssign"),
        Some(Selection::One(Property::NegIsizeAddAssign))
    );
    assert_eq!(
        select_property("NegIsizeAddassign"),
        Some(Selection::One(Property::NegIsizeAddAssign))
    );
    assert_eq!(select_property("MulSquareAllOnes"), Some(Selection::One(Property::MulSquareAllOnes)));
    assert_eq!(select_property("MulDoesNotPanic"), Some(Selection::One(Property::MulDoesNotPanic)));
    assert_eq!(select_property("all"), None);
    assert_eq!(select_property(""), None);
    assert_eq!(select_property("MulDoesNotPanic "), None);
}
