use hachimi_agent::json::{checked_json_number, is_json_number, print_json, JsonValue};

#[test]
fn json_number_text_follows_the_grammar() {
    for ok in ["0", "-0", "7", "42", "-13", "3.25", "0.5", "1e9", "1E+2", "-2.5e-3"] {
        assert!(is_json_number(ok), "{ok}");
    }
    for bad in ["", "-", "01", "1.", ".5", "1e", "1e+", "+1", "1.2.3", "abc", "NaN", "1 "] {
        assert!(!is_json_number(bad), "{bad}");
    }
}

#[test]
fn checked_numbers_print_as_written() {
    let n = checked_json_number("-2.5e-3").expect("number");
    assert!(matches!(&n, JsonValue::Number(t) if t == "-2.5e-3"));
    assert_eq!(print_json(&JsonValue::Array(vec![checked_json_number("12").unwrap()])), "[12]");
    assert!(checked_json_number("twelve").is_none());
}
