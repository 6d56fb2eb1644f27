use deep_link::wire::{frame, launch_payload, unframe, DELIMITER};

#[test]
fn the_delimiter_is_a_newline() {
    assert_eq!(DELIMITER, '\n');
}

#[test]
fn frame_appends_the_delimiter() {
    assert_eq!(frame("myapp://open?x=1"), "myapp://open?x=1\n");
    assert_eq!(frame(""), "\n");
}

#[test]
fn unframe_strips_the_delimiter() {
    assert_eq!(unframe("myapp://open?x=1\n"), "myapp://open?x=1");
    assert_eq!(unframe("\n"), "");
}

#[test]
fn unframe_keeps_a_line_that_was_not_ended() {
    assert_eq!(unframe("myapp://open"), "myapp://open");
    assert_eq!(unframe(""), "");
}

#[test]
fn unframe_takes_what_stands_before_the_first_delimiter() {
    assert_eq!(unframe("first\nsecond\n"), "first");
    assert_eq!(unframe("\nsecond"), "");
    assert_eq!(unframe("a\r\n"), "a\r");
}

#[test]
fn a_payload_without_delimiter_comes_back_exactly() {
    let payloads = [
        "",
        "x",
        "myapp://host/path?query=a%20b#fragment",
        "  spaces around  ",
        "tab\tand\rreturn",
        "\u{e9}\u{4e2d}\u{6587}\u{1f600}",
    ];
    for payload in payloads {
        assert_eq!(unframe(&frame(payload)), payload);
        let mut followed = frame(payload);
        followed.push_str("more\n");
        assert_eq!(unframe(&followed), payload);
    }
}

#[test]
fn a_payload_with_a_delimiter_is_cut_at_it() {
    assert_eq!(unframe(&frame("one\ntwo")), "one");
}

#[test]
fn launch_payload_is_the_first_argument() {
    let args = vec!["app.exe".to_string(), "myapp://a".to_string(), "ignored".to_string()];
    assert_eq!(launch_payload(&args), "myapp://a");
}

#[test]
fn launch_payload_is_empty_without_an_argument() {
    assert_eq!(launch_payload(&vec!["app.exe".to_string()]), "");
    assert_eq!(launch_payload(&Vec::new()), "");
}

#[test]
fn a_launch_without_argument_sends_the_empty_payload() {
    let message = frame(&launch_payload(&vec!["app.exe".to_string()]));
    assert_eq!(message, "\n");
    assert_eq!(unframe(&message), "");
}
