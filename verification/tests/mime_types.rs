use webbie::mime::{classify, BodyKind};

#[test]
fn json_type_is_json() {
    assert_eq!(classify("application/json"), BodyKind::Json);
}

#[test]
fn form_type_is_form() {
    assert_eq!(classify("application/x-www-form-urlencoded"), BodyKind::Form);
}

#[test]
fn parameters_are_discarded() {
    assert_eq!(classify("application/json; charset=utf-8"), BodyKind::Json);
    assert_eq!(classify("application/json;charset=utf-8;x=y"), BodyKind::Json);
    assert_eq!(
        classify("application/x-www-form-urlencoded ; boundary=1"),
        BodyKind::Form
    );
}

#[test]
fn case_of_letters_does_not_count() {
    assert_eq!(classify("Application/JSON"), BodyKind::Json);
    assert_eq!(classify("APPLICATION/X-WWW-FORM-URLENCODED"), BodyKind::Form);
}

#[test]
fn white_space_at_the_ends_is_dropped() {
    assert_eq!(classify("  application/json\t"), BodyKind::Json);
    assert_eq!(classify("\u{a0}application/json\u{3000};q"), BodyKind::Json);
}

#[test]
fn white_space_inside_is_kept() {
    assert_eq!(classify("application/ json"), BodyKind::Text);
}

#[test]
fn other_types_are_text() {
    assert_eq!(classify("text/plain"), BodyKind::Text);
    assert_eq!(classify("text/html"), BodyKind::Text);
    assert_eq!(classify(""), BodyKind::Text);
    assert_eq!(classify(";application/json"), BodyKind::Text);
    assert_eq!(classify("application/json5"), BodyKind::Text);
    assert_eq!(classify("application/jso"), BodyKind::Text);
    assert_eq!(classify("json"), BodyKind::Text);
}

#[test]
fn letters_beyond_ascii_match_nothing() {
    assert_eq!(classify("applic\u{e4}tion/json"), BodyKind::Text);
    assert_eq!(classify("\u{212a}application/json"), BodyKind::Text);
}
