use webbie::form::{form_fields, form_line_of, render_form};
use webbie::styling::strip_styling;

fn pair(k: &str, v: &str) -> (String, String) {
    (k.to_string(), v.to_string())
}

#[test]
fn fields_are_cut_at_ampersands_and_first_equals() {
    assert_eq!(form_fields("a=1&b=2"), vec![pair("a", "1"), pair("b", "2")]);
    assert_eq!(form_fields("a=b=c"), vec![pair("a", "b=c")]);
}

#[test]
fn missing_key_or_value_is_empty() {
    assert_eq!(form_fields("a"), vec![pair("a", "")]);
    assert_eq!(form_fields("=b"), vec![pair("", "b")]);
    assert_eq!(form_fields("a="), vec![pair("a", "")]);
    assert_eq!(form_fields(""), vec![pair("", "")]);
    assert_eq!(
        form_fields("a=1&&b"),
        vec![pair("a", "1"), pair("", ""), pair("b", "")]
    );
    assert_eq!(form_fields("&"), vec![pair("", ""), pair("", "")]);
}

#[test]
fn nothing_is_decoded() {
    assert_eq!(form_fields("a%20b=c+d"), vec![pair("a%20b", "c+d")]);
}

#[test]
fn a_line_is_key_equals_value() {
    assert_eq!(form_line_of("k", "v"), "k=v");
    assert_eq!(form_line_of("", ""), "=");
    assert_eq!(form_line_of("\u{1b}[1;34mk\u{1b}[0m", "v=w"), "\u{1b}[1;34mk\u{1b}[0m=v=w");
}

#[test]
fn rendered_form_stripped_is_key_value_lines() {
    assert_eq!(strip_styling(&render_form("a=1&b=2")), "a=1\nb=2");
    assert_eq!(strip_styling(&render_form("a")), "a=");
    assert_eq!(strip_styling(&render_form("")), "=");
    assert_eq!(strip_styling(&render_form("x=1&&y=")), "x=1\n=\ny=");
}
