use webbie::styling::strip_styling;

#[test]
fn text_without_styling_stays() {
    assert_eq!(strip_styling("hello, world"), "hello, world");
    assert_eq!(strip_styling(""), "");
    assert_eq!(strip_styling("a\nb\tc"), "a\nb\tc");
}

#[test]
fn styling_sequences_are_taken_out() {
    assert_eq!(strip_styling("\u{1b}[1;34mab\u{1b}[0m"), "ab");
    assert_eq!(strip_styling("\u{1b}[48;2;43;48;59m\u{1b}[38;2;192;197;206m{"), "{");
    assert_eq!(strip_styling("\u{1b}[m"), "");
    assert_eq!(strip_styling("x\u{1b}[0m\u{1b}[1my"), "xy");
}

#[test]
fn what_is_no_styling_sequence_stays() {
    assert_eq!(strip_styling("\u{1b}[12"), "\u{1b}[12");
    assert_eq!(strip_styling("\u{1b}"), "\u{1b}");
    assert_eq!(strip_styling("\u{1b}["), "\u{1b}[");
    assert_eq!(strip_styling("\u{1b}[?25h"), "\u{1b}[?25h");
    assert_eq!(strip_styling("\u{1b}m"), "\u{1b}m");
    assert_eq!(strip_styling("[1;34m"), "[1;34m");
}

#[test]
fn an_unfinished_sequence_does_not_hide_the_next() {
    assert_eq!(strip_styling("\u{1b}[1\u{1b}[0mz"), "\u{1b}[1z");
}

#[test]
fn letters_beyond_ascii_stay() {
    assert_eq!(strip_styling("\u{1b}[3;33mgr\u{fc}n \u{1f600}\u{1b}[0m"), "gr\u{fc}n \u{1f600}");
}
