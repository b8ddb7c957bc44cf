use webbie::body::BodyRenderer;
use webbie::highlight::{covers, show_line};
use webbie::mime::BodyKind;
use webbie::styling::strip_styling;

#[test]
fn json_round_trip() {
    let renderer = BodyRenderer::new();
    let out = renderer.format_body("application/json", b"{\"a\":1}");
    assert_eq!(strip_styling(&out), "{\"a\":1}");
}

#[test]
fn json_is_highlighted() {
    let renderer = BodyRenderer::new();
    let out = renderer.format_body("application/json", b"{\"a\":1}");
    assert_ne!(out, "{\"a\":1}");
    assert!(out.starts_with("\u{1b}[48;2;"));
    assert!(out.contains("\u{1b}[38;2;"));
}

#[test]
fn json_lines_keep_their_endings() {
    let renderer = BodyRenderer::new();
    let out = renderer.format_body("application/json", b"{\n  \"a\": [1, 2]\n}");
    assert_eq!(strip_styling(&out), "{\n  \"a\": [1, 2]\n}");
    let out = renderer.format_body("application/json", b"[]\n");
    assert_eq!(strip_styling(&out), "[]\n");
    let out = renderer.format_body("application/json", b"\n\n[]\r\n\n");
    assert_eq!(strip_styling(&out), "\n\n[]\r\n\n");
}

#[test]
fn a_line_ending_inside_json_stands_once() {
    let renderer = BodyRenderer::new();
    let out = renderer.format_body("application/json", b"[1,\n2]");
    assert_ne!(out, "[1,\n2]");
    assert_eq!(strip_styling(&out), "[1,\n2]");
    assert_eq!(strip_styling(&out).chars().count(), 6);
}

#[test]
fn malformed_json_is_rendered_all_the_same() {
    let renderer = BodyRenderer::new();
    let out = renderer.format_body("application/json", b"{\"a\": ][ nope");
    assert_eq!(strip_styling(&out), "{\"a\": ][ nope");
}

#[test]
fn json_that_is_not_utf8_is_decoded_with_replacement() {
    let renderer = BodyRenderer::new();
    let out = renderer.format_body("application/json", b"{\"a\":\"\xff\"}");
    assert_eq!(strip_styling(&out), "{\"a\":\"\u{fffd}\"}");
}

#[test]
fn an_empty_json_body_renders_to_nothing() {
    let renderer = BodyRenderer::new();
    assert_eq!(renderer.format_body("application/json", b""), "");
}

#[test]
fn form_round_trip() {
    let renderer = BodyRenderer::new();
    let out = renderer.format_body("application/x-www-form-urlencoded", b"a=1&b=2");
    assert_eq!(strip_styling(&out), "a=1\nb=2");
}

#[test]
fn an_empty_form_body_is_one_empty_pair() {
    let renderer = BodyRenderer::new();
    let out = renderer.format_body("application/x-www-form-urlencoded", b"");
    assert_eq!(strip_styling(&out), "=");
}

#[test]
fn other_bodies_come_out_as_they_are() {
    let renderer = BodyRenderer::new();
    assert_eq!(renderer.format_body("text/plain", b"a=1&b=2"), "a=1&b=2");
    assert_eq!(renderer.format_body("text/html", b"<p>\n</p>\n"), "<p>\n</p>\n");
    assert_eq!(renderer.format_body("", b"x"), "x");
    assert_eq!(renderer.format_body("image/png", b""), "");
    assert_eq!(
        renderer.format_body("text/plain", "gr\u{fc}n".as_bytes()),
        "gr\u{fc}n"
    );
}

#[test]
fn bytes_that_are_not_utf8_are_replaced() {
    let renderer = BodyRenderer::new();
    assert_eq!(renderer.format_body("text/plain", b"\xffa"), "\u{fffd}a");
    assert_eq!(
        renderer.format_body("application/octet-stream", b"a\xc3"),
        "a\u{fffd}"
    );
    assert_eq!(
        renderer.format_body("text/plain", b"\xf0\x9f\x98\x80\x80"),
        "\u{1f600}\u{fffd}"
    );
}

#[test]
fn the_kind_may_be_given_directly() {
    let renderer = BodyRenderer::new();
    assert_eq!(renderer.render_text(BodyKind::Text, "a&b"), "a&b");
    assert_eq!(strip_styling(&renderer.render_text(BodyKind::Form, "a&b")), "a=\nb=");
    assert_eq!(strip_styling(&renderer.render_text(BodyKind::Json, "[1]")), "[1]");
}

#[test]
fn pieces_that_make_up_the_line_are_shown() {
    let style = syntect::highlighting::Style::default();
    let spans = vec![(style, "ab"), (style, "c\n")];
    assert!(covers(&spans, "abc\n"));
    let out = show_line("abc\n", &spans).unwrap();
    assert_ne!(out, "abc\n");
    assert_eq!(strip_styling(&out), "abc\n");
    assert!(out.starts_with("\u{1b}[48;2;"));
}

#[test]
fn pieces_that_miss_a_part_of_the_line_are_not_shown() {
    let style = syntect::highlighting::Style::default();
    let spans = vec![(style, "ab")];
    assert!(!covers(&spans, "abc"));
    assert_eq!(show_line("abc", &spans), None);
    assert_eq!(show_line("a", &spans), None);
    let none: Vec<(syntect::highlighting::Style, &str)> = Vec::new();
    assert!(covers(&none, ""));
    assert!(!covers(&none, "x"));
    assert_eq!(show_line("", &none), Some(String::new()));
}

fn piece(colour: &str, text: &str) -> String {
    format!("\u{1b}[48;2;43;48;59m\u{1b}[38;2;{}m{}", colour, text)
}

#[test]
fn json_in_the_colours_of_the_theme() {
    let renderer = BodyRenderer::new();
    let out = renderer.format_body("application/json", b"{\"a\":1}\n[2]");
    let plain = "192;197;206";
    let text = "163;190;140";
    let number = "208;135;112";
    let expected = [
        piece(plain, "{"),
        piece(plain, "\""),
        piece(text, "a"),
        piece(plain, "\""),
        piece(plain, ":"),
        piece(number, "1"),
        piece(plain, "}"),
        piece(plain, "\n"),
        piece(plain, "["),
        piece(number, "2"),
        piece(plain, "]"),
    ]
    .concat();
    assert_eq!(out, expected);
}

#[test]
fn without_the_theme_json_comes_out_plain() {
    let syntaxes = syntect::parsing::SyntaxSet::load_defaults_newlines();
    let no_themes = syntect::highlighting::ThemeSet::default();
    assert_eq!(
        webbie::highlight::render_json(&syntaxes, &no_themes, "[1]\n[2]"),
        "[1]\n[2]"
    );
}

#[test]
fn with_the_themes_that_are_brought_json_is_highlighted() {
    let syntaxes = syntect::parsing::SyntaxSet::load_defaults_newlines();
    let themes = syntect::highlighting::ThemeSet::load_defaults();
    assert!(themes.themes.contains_key("base16-ocean.dark"));
    let out = webbie::highlight::render_json(&syntaxes, &themes, "[1]");
    assert_ne!(out, "[1]");
    assert_eq!(strip_styling(&out), "[1]");
}
