use tview::buffer::Buffer;
use tview::error::Error;
use tview::io_provider::{out, take_out_contents, FakeOut};
use tview::terminal::{execute, Size};
use tview::viewer::{render_empty_row, render_welcome_row, View, NAME, VERSION};

fn sent(sink: &mut FakeOut) -> String {
    execute(sink).unwrap();
    String::from_utf8(take_out_contents(sink)).unwrap()
}

fn view_of(lines: &[&str]) -> View {
    View {
        buffer: Buffer {
            lines: lines.iter().map(|line| line.to_string()).collect(),
        },
    }
}

#[test]
fn test_render_welcome() {
    let mut sink = out();
    render_welcome_row(&mut sink, 80).unwrap();
    execute(&mut sink).unwrap();

    let contents = take_out_contents(&mut sink);
    let out = String::from_utf8_lossy(&contents);
    assert!(
        out.contains("editor -- version"),
        "Expected welcome message in output"
    );
}

#[test]
fn test_render_empty() {
    let mut sink = out();
    render_empty_row(&mut sink).unwrap();
    execute(&mut sink).unwrap();

    let contents = take_out_contents(&mut sink);
    let out = String::from_utf8_lossy(&contents);
    assert!(out.contains('~'), "Expected a single '~' for empty row");
}

#[test]
fn test_render() {
    let mut sink = out();
    let view = View::default();

    view.render(&mut sink, Size { width: 80, height: 24 })
        .unwrap();
    execute(&mut sink).unwrap();

    let contents = take_out_contents(&mut sink);
    let out = String::from_utf8_lossy(&contents);
    assert!(
        out.contains('~'),
        "Expected at least some empty row symbols (~)"
    );
    assert!(
        out.contains("editor -- version"),
        "Expected the welcome row somewhere in the output"
    );
}

#[test]
fn empty_row_is_one_tilde() {
    let mut sink = out();
    render_empty_row(&mut sink).unwrap();
    assert_eq!(sent(&mut sink), "~");
}

#[test]
fn banner_is_name_words_version() {
    assert_eq!(NAME, "tview");
    assert_eq!(VERSION, "0.1.0");
    let mut sink = out();
    render_welcome_row(&mut sink, 31).unwrap();
    assert_eq!(sent(&mut sink), "~tview editor -- version 0.1.0");
}

#[test]
fn welcome_row_is_centred_in_a_wide_viewport() {
    // banner: 29 characters; padding (80 - 29) / 2 = 25; blanks 24
    let mut sink = out();
    render_welcome_row(&mut sink, 80).unwrap();
    let expected = format!("~{}tview editor -- version 0.1.0", " ".repeat(24));
    assert_eq!(sent(&mut sink), expected);
}

#[test]
fn welcome_row_padding_rounds_down() {
    // padding (34 - 29) / 2 = 2; blanks 1
    let mut sink = out();
    render_welcome_row(&mut sink, 34).unwrap();
    assert_eq!(sent(&mut sink), "~ tview editor -- version 0.1.0");
    // padding (33 - 29) / 2 = 2; blanks 1
    let mut sink = out();
    render_welcome_row(&mut sink, 33).unwrap();
    assert_eq!(sent(&mut sink), "~ tview editor -- version 0.1.0");
    // padding (32 - 29) / 2 = 1; blanks 0
    let mut sink = out();
    render_welcome_row(&mut sink, 32).unwrap();
    assert_eq!(sent(&mut sink), "~tview editor -- version 0.1.0");
}

#[test]
fn welcome_row_is_cut_to_a_narrow_viewport() {
    let mut sink = out();
    render_welcome_row(&mut sink, 29).unwrap();
    assert_eq!(sent(&mut sink), "~tview editor -- version 0.1.");
    let mut sink = out();
    render_welcome_row(&mut sink, 30).unwrap();
    assert_eq!(sent(&mut sink), "~tview editor -- version 0.1.0");
    let mut sink = out();
    render_welcome_row(&mut sink, 10).unwrap();
    assert_eq!(sent(&mut sink), "~tview edi");
    let mut sink = out();
    render_welcome_row(&mut sink, 1).unwrap();
    assert_eq!(sent(&mut sink), "~");
    let mut sink = out();
    render_welcome_row(&mut sink, 0).unwrap();
    assert_eq!(sent(&mut sink), "");
}

#[test]
fn welcome_row_holds_the_words_from_width_24_on() {
    for width in 0..200 {
        let mut sink = out();
        render_welcome_row(&mut sink, width).unwrap();
        let row = sent(&mut sink);
        assert_eq!(row.contains("editor -- version"), width >= 24, "width {width}");
        assert!(row.chars().count() <= width);
    }
}

#[test]
fn empty_document_gives_one_row_for_each_row_of_the_viewport() {
    for height in 1..40 {
        let mut sink = out();
        View::default()
            .render(&mut sink, Size { width: 80, height })
            .unwrap();
        let frame = sent(&mut sink);
        let rows: Vec<&str> = frame.split("\r\n").collect();
        assert_eq!(rows.len(), height);
        assert_eq!(frame.matches("\r\n").count(), height - 1);
        assert_eq!(frame.matches('\n').count(), height - 1);
        for (index, row) in rows.iter().enumerate() {
            assert!(row.starts_with("\x1b[2K~"));
            assert_eq!(
                row.contains("editor -- version"),
                index == height / 3,
                "height {height}, row {index}"
            );
            if index != height / 3 {
                assert_eq!(*row, "\x1b[2K~");
            }
        }
    }
}

#[test]
fn empty_document_in_a_viewport_without_rows_draws_nothing() {
    let mut sink = out();
    View::default()
        .render(&mut sink, Size { width: 80, height: 0 })
        .unwrap();
    assert_eq!(sent(&mut sink), "");
}

#[test]
fn welcome_screen_of_three_rows() {
    let mut sink = out();
    View::render_welcome(&mut sink, Size { width: 31, height: 3 }).unwrap();
    assert_eq!(
        sent(&mut sink),
        "\x1b[2K~\r\n\x1b[2K~tview editor -- version 0.1.0\r\n\x1b[2K~"
    );
}

#[test]
fn two_lines_over_five_rows() {
    let mut sink = out();
    view_of(&["a", "b"])
        .render(&mut sink, Size { width: 80, height: 5 })
        .unwrap();
    assert_eq!(
        sent(&mut sink),
        "\x1b[2Ka\r\n\x1b[2Kb\r\n\x1b[2K~\r\n\x1b[2K~\r\n\x1b[2K~"
    );
}

#[test]
fn document_longer_than_the_viewport_shows_its_first_lines() {
    let mut sink = out();
    view_of(&["one", "two", "three", "four"])
        .render(&mut sink, Size { width: 80, height: 2 })
        .unwrap();
    assert_eq!(sent(&mut sink), "\x1b[2Kone\r\n\x1b[2Ktwo");
}

#[test]
fn document_lines_are_printed_as_they_are() {
    let mut sink = out();
    view_of(&["", "a line that is wider than the viewport", "ünïcödé"])
        .render(&mut sink, Size { width: 4, height: 3 })
        .unwrap();
    assert_eq!(
        sent(&mut sink),
        "\x1b[2K\r\n\x1b[2Ka line that is wider than the viewport\r\n\x1b[2Künïcödé"
    );
}

#[test]
fn render_buffer_of_the_empty_document_is_all_filler() {
    let mut sink = out();
    View::default()
        .render_buffer(&mut sink, Size { width: 80, height: 3 })
        .unwrap();
    assert_eq!(sent(&mut sink), "\x1b[2K~\r\n\x1b[2K~\r\n\x1b[2K~");
}

#[test]
fn render_queues_and_does_not_transmit() {
    let mut sink = out();
    view_of(&["a"])
        .render(&mut sink, Size { width: 80, height: 1 })
        .unwrap();
    assert!(take_out_contents(&mut sink).is_empty());
    assert_eq!(sent(&mut sink), "\x1b[2Ka");
}

#[test]
fn load_takes_the_lines_of_the_text() {
    let mut view = View::default();
    view.load(Ok("first\nsecond\r\nthird\n".to_string()));
    assert_eq!(view.buffer.lines, vec!["first", "second", "third"]);
    assert_eq!(view.buffer.get(1), Some("second"));
    assert_eq!(view.buffer.get(3), None);
    assert!(!view.buffer.is_empty());
}

#[test]
fn failed_load_keeps_the_document() {
    let missing = || Error::Io(std::io::Error::new(std::io::ErrorKind::NotFound, "missing"));
    let mut view = View::default();
    view.load(Err(missing()));
    assert!(view.buffer.is_empty());

    let mut view = view_of(&["kept"]);
    view.load(Err(missing()));
    assert_eq!(view.buffer.lines, vec!["kept"]);
}
