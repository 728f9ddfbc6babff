use tview::buffer::Buffer;
use tview::error::Error;

fn lines_of(text: &str) -> Vec<String> {
    Buffer::load(Ok(text.to_string())).unwrap().lines
}

#[test]
fn default_buffer_is_empty() {
    let buffer = Buffer::default();
    assert!(buffer.is_empty());
    assert_eq!(buffer.get(0), None);
}

#[test]
fn get_is_by_row_number() {
    let buffer = Buffer {
        lines: vec!["zero".to_string(), "one".to_string()],
    };
    assert!(!buffer.is_empty());
    assert_eq!(buffer.get(0), Some("zero"));
    assert_eq!(buffer.get(1), Some("one"));
    assert_eq!(buffer.get(2), None);
    assert_eq!(buffer.get(usize::MAX), None);
}

#[test]
fn text_without_line_feed_is_one_line() {
    assert_eq!(lines_of("abc"), vec!["abc"]);
}

#[test]
fn empty_text_has_no_lines() {
    assert!(lines_of("").is_empty());
    assert!(Buffer::load(Ok(String::new())).unwrap().is_empty());
}

#[test]
fn final_line_feed_adds_no_line() {
    assert_eq!(lines_of("a\nb\n"), vec!["a", "b"]);
    assert_eq!(lines_of("a\nb"), vec!["a", "b"]);
    assert_eq!(lines_of("\n"), vec![""]);
    assert_eq!(lines_of("\n\n"), vec!["", ""]);
    assert_eq!(lines_of("a\n\nb"), vec!["a", "", "b"]);
}

#[test]
fn carriage_return_before_line_feed_is_dropped() {
    assert_eq!(lines_of("a\r\nb\r\n"), vec!["a", "b"]);
    assert_eq!(lines_of("\r\n"), vec![""]);
    assert_eq!(lines_of("a\r\r\nb"), vec!["a\r", "b"]);
}

#[test]
fn other_carriage_returns_are_kept() {
    assert_eq!(lines_of("a\rb"), vec!["a\rb"]);
    assert_eq!(lines_of("a\r"), vec!["a\r"]);
    assert_eq!(lines_of("a\n\r"), vec!["a", "\r"]);
    assert_eq!(lines_of("\r"), vec!["\r"]);
    assert_eq!(lines_of("\r\ra\n"), vec!["\r\ra"]);
}

#[test]
fn lines_agree_with_the_standard_library() {
    for text in [
        "",
        "a",
        "\n",
        "\r",
        "\r\n",
        "a\nb",
        "a\r\nb\r\n",
        "a\r\r\n\rb\n\n\r",
        "héllo\r\nwörld ✓\n",
        "one\ntwo\nthree",
        "\n\n\n",
        "\r\r\r",
    ] {
        let expected: Vec<String> = text.lines().map(str::to_string).collect();
        assert_eq!(lines_of(text), expected, "text {text:?}");
    }
}

#[test]
fn lines_hold_no_line_feed() {
    for line in lines_of("a\nb\r\n\nc\rd\n") {
        assert!(!line.contains('\n'));
    }
}

#[test]
fn failed_read_is_passed_on() {
    let read = Err(Error::Io(std::io::Error::new(
        std::io::ErrorKind::NotFound,
        "no such file",
    )));
    match Buffer::load(read) {
        Err(Error::Io(failure)) => {
            assert_eq!(failure.kind(), std::io::ErrorKind::NotFound);
            assert!(failure.to_string().contains("no such file"));
        }
        _ => panic!("expected the failure of the read"),
    }
}
