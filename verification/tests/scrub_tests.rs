use eyre_span::strip_ansi;

#[test]
fn removes_balanced_escape_sequences() {
    assert_eq!(strip_ansi(String::from("\x1B[31merr\x1B[0m")), "err");
}

#[test]
fn keeps_plain_text_unchanged() {
    let text = "plain text, no escapes";
    assert_eq!(strip_ansi(String::from(text)), text);
}

#[test]
fn scrubbing_twice_changes_nothing() {
    let once = strip_ansi(String::from("mix\x1B[1mbold\x1B[0m end"));
    let twice = strip_ansi(once.clone());
    assert_eq!(once, "mixbold end");
    assert_eq!(twice, once);
}

#[test]
fn unterminated_escape_drops_the_rest() {
    assert_eq!(strip_ansi(String::from("ok\x1Bcut")), "ok");
}

#[test]
fn empty_input_stays_empty() {
    assert_eq!(strip_ansi(String::new()), "");
}

#[test]
fn anything_before_the_next_m_belongs_to_the_escape() {
    assert_eq!(strip_ansi(String::from("a\x1Bxyzmb")), "ab");
}
