use pipec::ui::binary::{render_binary, render_bytes, render_graphemes, UNICODE_REPLACEMENT_CODEPOINT};
use pipec::ui::content::{Line, Span, Text};
use pipec::ui::geometry::{Rect, Size};
use pipec::ui::style::{Color, Style};

fn light_red(content: &str) -> Span {
    Span::styled(content, Style::plain().fg(Color::LightRed))
}

fn rendered(buf: &[u8], width: u16, height: u16) -> Text {
    let mut text = Text::empty(Style::plain());
    render_binary(buf, Size::new(width, height), &mut text);
    text
}

#[test]
fn test_render_binary_valid_utf8() {
    let mut text = Text::empty(Style::plain());
    render_binary(b"abcdef", Size::new(10, 1), &mut text);
    assert_eq!(text, Text::of(vec![Line::of(Span::raw("abcdef"))]));
}

#[test]
fn test_render_binary_invalid_utf8() {
    let mut text = Text::empty(Style::plain());
    render_binary(b"abc\xffdef", Size::new(10, 1), &mut text);
    assert_eq!(
        text,
        Text::of(vec![Line {
            spans: vec![
                Span::raw("abc"),
                light_red(UNICODE_REPLACEMENT_CODEPOINT),
                Span::raw("def"),
            ],
        }])
    );
}

#[test]
fn test_render_binary_renders_sequential_invalid_bytes_as_single_span() {
    let mut text = Text::empty(Style::plain());
    render_binary(b"abc\xff\xffdef", Size::new(10, 1), &mut text);
    assert_eq!(
        text,
        Text::of(vec![Line {
            spans: vec![
                Span::raw("abc"),
                light_red(&UNICODE_REPLACEMENT_CODEPOINT.repeat(2)),
                Span::raw("def"),
            ],
        }])
    );
}

/// Lines are allocated for the whole area, even if there are less real lines in the buffer.
#[test]
fn test_render_binary_allocates_lines_for_whole_area() {
    let mut text = Text::empty(Style::plain());
    render_binary(b"abc\xffdef", Size::new(10, 2), &mut text);
    assert_eq!(
        text,
        // Just one line is rendered, but the area has two rows.
        Text::of(vec![
            Line {
                spans: vec![
                    Span::raw("abc"),
                    light_red(UNICODE_REPLACEMENT_CODEPOINT),
                    Span::raw("def"),
                ],
            },
            Line::empty(),
        ])
    );
}

/// The number of rendered lines is limited by the height of the area.
#[test]
fn test_render_binary_number_of_lines_limited_by_area_height() {
    let mut text = Text::empty(Style::plain());
    render_binary(b"abc\ndef\nghi", Size::new(10, 2), &mut text);
    assert_eq!(
        text,
        Text::of(vec![Line::of(Span::raw("abc")), Line::of(Span::raw("def"))])
    );
}

#[test]
fn long_rows_are_cut_into_spans_of_the_width() {
    assert_eq!(
        rendered(b"abcde\nf", 2, 2),
        Text::of(vec![
            Line { spans: vec![Span::raw("ab"), Span::raw("cd"), Span::raw("e")] },
            Line::of(Span::raw("f")),
        ])
    );
}

#[test]
fn combined_characters_count_as_one_grapheme() {
    assert_eq!(
        rendered("e\u{301}xy".as_bytes(), 2, 1),
        Text::of(vec![Line { spans: vec![Span::raw("e\u{301}x"), Span::raw("y")] }])
    );
}

#[test]
fn empty_rows_stay_empty() {
    assert_eq!(
        rendered(b"\n\na", 5, 4),
        Text::of(vec![Line::empty(), Line::empty(), Line::of(Span::raw("a")), Line::empty()])
    );
}

#[test]
fn old_lines_are_replaced_and_the_style_is_kept() {
    let style = Style::plain().fg(Color::Red);
    let mut text = Text::empty(style);
    text.lines.push(Line::of(Span::raw("old")));
    text.lines.push(Line::of(Span::raw("older")));
    render_binary(b"new", Size::new(5, 1), &mut text);
    assert_eq!(text, Text { lines: vec![Line::of(Span::raw("new"))], style });
}

#[test]
fn given_graphemes_are_rendered() {
    let graphemes: Vec<String> = ["a", "\u{FFFD}", "\n", "b"].iter().map(|g| g.to_string()).collect();
    let mut text = Text::empty(Style::plain());
    render_graphemes(&graphemes, Size::new(3, 2), &mut text);
    assert_eq!(
        text,
        Text::of(vec![
            Line { spans: vec![Span::raw("a"), light_red("\u{FFFD}")] },
            Line::of(Span::raw("b")),
        ])
    );
}

#[test]
fn bytes_need_room() {
    let style = Style::plain();
    assert!(render_bytes(b"a", Rect::new(0, 0, 0, 1), style).is_none());
    assert!(render_bytes(b"a", Rect::new(0, 0, 1, 0), style).is_none());
    assert!(render_bytes(b"\n\na", Rect::new(0, 0, 0, 3), style).is_none());
    assert_eq!(
        render_bytes(b"\n\na", Rect::new(0, 0, 0, 2), style),
        Some(Text::of(vec![Line::empty(), Line::empty()]))
    );
    assert_eq!(render_bytes(b"\na", Rect::new(0, 0, 5, 0), style), Some(Text::of(vec![])));
    assert_eq!(render_bytes(b"", Rect::new(0, 0, 0, 0), style), Some(Text::of(vec![])));
    assert_eq!(
        render_bytes(b"a", Rect::new(3, 4, 1, 1), style.fg(Color::Red)),
        Some(Text { lines: vec![Line::of(Span::raw("a"))], style: style.fg(Color::Red) })
    );
}

/// Where there are lines for all rows, valid text is shown as it is.
#[test]
fn valid_text_is_shown_as_it_is() {
    let original = "first é\n\nthird \u{1F926}\u{1F3FC}\u{200D}\u{2642}\u{FE0F}\r\nlast\n";
    let text = rendered(original.as_bytes(), 4, 5);
    let lines: Vec<String> = text
        .lines
        .iter()
        .map(|line| line.spans.iter().map(|span| span.content.as_str()).collect::<String>())
        .collect();
    // A carriage return belongs to the same grapheme as the newline behind it.
    assert_eq!(lines[..4].join("\n"), original);
    assert_eq!(lines.len(), 5);
}
