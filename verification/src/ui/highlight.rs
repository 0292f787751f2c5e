//! Syntax highlighting of commands.

use crate::ui::content;
use crate::ui::content::{Span, SpanView};
use crate::ui::style::{Color, Style};
use tree_sitter_highlight::{HighlightConfiguration, HighlightEvent as TreeEvent, Highlighter};
use vstd::prelude::*;
use vstd::string::*;
use vstd::utf8::*;

verus! {

/// A step of a highlighted text.
#[derive(Debug, Clone, Copy, PartialEq, Eq, Structural)]
pub enum HighlightEvent {
    /// The bytes of the text from `start` to `end` come next.
    Source { start: usize, end: usize },
    /// A highlight begins. It is given by its place in the list of names.
    HighlightStart(usize),
    /// The highlight that began last ends.
    HighlightEnd,
}

/// Why a command could not be highlighted.
#[derive(Debug, Clone, Copy, PartialEq, Eq, Structural)]
pub enum HighlightError {
    /// The highlighter gave up.
    Failed,
    /// The highlighter gave steps that do not fit the command or each other.
    Malformed,
}

/// `tree_sitter_highlight::Error`, an opaque reason.
#[verifier::external_type_specification]
#[verifier::external_body]
pub struct ExHighlightError(tree_sitter_highlight::Error);

/// The names of the highlights that are told apart.
pub open spec fn recognized_names() -> Seq<Seq<char>> {
    seq![
        "string"@,
        "function"@,
        "property"@,
        "keyword"@,
        "comment"@,
        "number"@,
        "embedded"@,
        "operator"@,
        "constant"@,
    ]
}

fn list_names() -> (r: Vec<&'static str>)
    ensures
        r@.map_values(|name: &str| name@) == recognized_names(),
{
    let names = vec![
        "string",
        "function",
        "property",
        "keyword",
        "comment",
        "number",
        "embedded",
        "operator",
        "constant",
    ];
    assert(names@.map_values(|name: &str| name@) =~= recognized_names());
    names
}

/// The number of highlights that have begun and not ended.
pub open spec fn nesting(events: Seq<HighlightEvent>) -> int
    decreases events.len(),
{
    if events.len() == 0 {
        0
    } else {
        nesting(events.drop_last()) + match events.last() {
            HighlightEvent::Source { .. } => 0int,
            HighlightEvent::HighlightStart(_) => 1int,
            HighlightEvent::HighlightEnd => -1int,
        }
    }
}

/// Whether each end of a highlight belongs to a beginning and the other way round.
pub open spec fn is_balanced(events: Seq<HighlightEvent>) -> bool {
    &&& forall|n: int| 0 <= n <= events.len() ==> #[trigger] nesting(events.take(n)) >= 0
    &&& nesting(events) == 0
}

/// Where in the text the steps have got to if they run through it from its start without a gap,
/// otherwise -1.
pub open spec fn position(events: Seq<HighlightEvent>) -> int
    decreases events.len(),
{
    if events.len() == 0 {
        0
    } else {
        match events.last() {
            HighlightEvent::Source { start, end } => if position(events.drop_last()) == start {
                end as int
            } else {
                -1
            },
            _ => position(events.drop_last()),
        }
    }
}

/// The steps of a highlighted shell command, if the highlighter does not give up.
pub uninterp spec fn highlight_events(
    command: Seq<char>,
    names: Seq<Seq<char>>,
) -> Option<Seq<HighlightEvent>>;

/// `tree_sitter_highlight::Highlighter::highlight`, with the grammar and the highlight query of
/// `tree_sitter_bash`, finds the steps of a highlighted command. They depend on the command and on
/// the names of the highlights alone, for nothing cancels it. Beginnings and ends of highlights
/// belong together, and the steps bring up the command without a gap, from its start to its end.
/// That they bring up whole characters is left unsaid.
#[verifier::external_body]
fn highlight(command: &str, names: &Vec<&'static str>) -> (r: Result<Vec<HighlightEvent>, tree_sitter_highlight::Error>)
    ensures
        match r {
            Ok(events) => {
                &&& highlight_events(command@, names@.map_values(|name: &str| name@)) == Some(
                    events@,
                )
                &&& is_balanced(events@)
                &&& position(events@) >= encode_utf8(command@).len()
            },
            Err(_) => highlight_events(command@, names@.map_values(|name: &str| name@)) is None,
        },
{
    let (language, query) = (tree_sitter_bash::LANGUAGE, tree_sitter_bash::HIGHLIGHT_QUERY);
    let mut config = HighlightConfiguration::new(language.into(), "bash", query, "", "").unwrap();
    config.configure(names);
    let mut highlighter = Highlighter::new();
    let events = highlighter.highlight(&config, command.as_bytes(), None, |_| None)?;
    events.map(|event| event.map(|event| match event {
        TreeEvent::Source { start, end } => HighlightEvent::Source { start, end },
        TreeEvent::HighlightStart(highlight) => HighlightEvent::HighlightStart(highlight.0),
        TreeEvent::HighlightEnd => HighlightEvent::HighlightEnd,
    })).collect()
}

/// The style of a highlight, which may be a change of the style around it.
pub open spec fn highlight_style(highlight: usize, style: Style) -> Style {
    match highlight {
        0 => style.fg(Color::Green),
        1 => style.fg(Color::Red),
        2 => style.fg(Color::Blue),
        3 => style.fg(Color::Yellow),
        4 => style.fg(Color::Gray),
        5 => style.fg(Color::Cyan),
        _ => style,
    }
}

pub fn get_style_for_highlight(highlight: usize, style: Style) -> (r: Style)
    ensures
        r == highlight_style(highlight, style),
{
    match highlight {
        0 /* string */ => style.fg(Color::Green),
        1 /* function */ => style.fg(Color::Red),
        2 /* property */ => style.fg(Color::Blue),
        3 /* keyword */ => style.fg(Color::Yellow),
        4 /* comment */ => style.fg(Color::Gray),
        5 /* number */ => style.fg(Color::Cyan),
        // embedded, operator, constant
        _ => style,
    }
}

/// Whether the range is one of whole characters of the text.
pub open spec fn is_part(command: Seq<char>, start: int, end: int) -> bool {
    let bytes = encode_utf8(command);
    &&& start <= end <= bytes.len()
    &&& is_char_boundary(bytes, start)
    &&& is_char_boundary(bytes, end)
}

/// The characters of the text in a range of its bytes.
pub open spec fn part(command: Seq<char>, start: int, end: int) -> Seq<char> {
    decode_utf8(encode_utf8(command).subrange(start, end))
}

/// Whether the steps fit the text and each other: all ranges are of whole characters, and each end
/// of a highlight belongs to a beginning and the other way round.
pub open spec fn well_formed(command: Seq<char>, events: Seq<HighlightEvent>) -> bool {
    &&& forall|i: int|
        0 <= i < events.len() ==> match #[trigger] events[i] {
            HighlightEvent::Source { start, end } => is_part(command, start as int, end as int),
            _ => true,
        }
    &&& is_balanced(events)
}

/// Where the rendering of steps has got to: the finished spans, the text that is not in a span yet,
/// and the styles of the highlights around it, the innermost last.
pub struct Progress {
    pub spans: Seq<SpanView>,
    pub buffer: Seq<char>,
    pub styles: Seq<Style>,
}

impl Progress {
    /// Text is collected. The beginning of a highlight ends a span if there is text for it; the end
    /// of a highlight ends a span in any case.
    pub open spec fn step(self, command: Seq<char>, event: HighlightEvent) -> Progress {
        let style = self.styles.last();
        match event {
            HighlightEvent::Source { start, end } => Progress {
                buffer: self.buffer + part(command, start as int, end as int),
                ..self
            },
            HighlightEvent::HighlightStart(highlight) => Progress {
                spans: if self.buffer.len() > 0 {
                    self.spans.push(content::styled(self.buffer, style))
                } else {
                    self.spans
                },
                buffer: Seq::empty(),
                styles: self.styles.push(highlight_style(highlight, style)),
            },
            HighlightEvent::HighlightEnd => Progress {
                spans: self.spans.push(content::styled(self.buffer, style)),
                buffer: Seq::empty(),
                styles: self.styles.drop_last(),
            },
        }
    }

    /// All spans. Text behind the last highlight makes one more.
    pub open spec fn finished(self) -> Seq<SpanView> {
        if self.buffer.len() > 0 {
            self.spans.push(content::styled(self.buffer, self.styles.last()))
        } else {
            self.spans
        }
    }
}

/// Where the rendering of all steps gets to.
pub open spec fn progress(
    command: Seq<char>,
    events: Seq<HighlightEvent>,
    base_style: Style,
) -> Progress
    decreases events.len(),
{
    if events.len() == 0 {
        Progress { spans: Seq::empty(), buffer: Seq::empty(), styles: seq![base_style] }
    } else {
        progress(command, events.drop_last(), base_style).step(command, events.last())
    }
}

/// The spans that the steps make of the command.
pub open spec fn highlighted(
    command: Seq<char>,
    events: Seq<HighlightEvent>,
    base_style: Style,
) -> Seq<SpanView> {
    progress(command, events, base_style).finished()
}

proof fn lemma_styles(command: Seq<char>, events: Seq<HighlightEvent>, base_style: Style, n: int)
    requires
        well_formed(command, events),
        0 <= n <= events.len(),
    ensures
        progress(command, events.take(n), base_style).styles.len() == nesting(events.take(n)) + 1,
    decreases n,
{
    let some = events.take(n);
    if n > 0 {
        assert(some.drop_last() =~= events.take(n - 1));
        lemma_styles(command, events, base_style, n - 1);
        assert(nesting(events.take(n - 1)) >= 0);
    }
}

/// The part of a text in a range of its bytes.
fn slice<'a>(command: &'a str, start: usize, end: usize) -> (r: &'a str)
    requires
        is_part(command@, start as int, end as int),
    ensures
        r@ == part(command@, start as int, end as int),
{
    broadcast use {encode_utf8_decode_utf8, encode_utf8_valid_utf8};

    let ghost bytes = command.spec_bytes();
    let (head, _) = command.split_at(end);
    proof {
        valid_utf8_split(bytes, end as int);
        if start < end {
            is_char_boundary_iff_not_is_continuation_byte(bytes, start as int);
            is_char_boundary_iff_not_is_continuation_byte(head.spec_bytes(), start as int);
            assert(head.spec_bytes()[start as int] == bytes[start as int]);
        } else {
            is_char_boundary_start_end_of_seq(head.spec_bytes());
        }
    }
    let (_, tail) = head.split_at(start);
    assert(tail.spec_bytes() =~= bytes.subrange(start as int, end as int));
    tail
}

/// Renders the steps of a highlighted command.
pub fn render_events(
    command: &str,
    events: &Vec<HighlightEvent>,
    base_style: Style,
) -> (spans: Vec<Span>)
    requires
        well_formed(command@, events@),
    ensures
        content::span_views(spans@) == highlighted(command@, events@, base_style),
{
    let mut spans: Vec<Span> = Vec::new();
    let mut buffer = String::new();
    let mut styles: Vec<Style> = vec![base_style];
    let mut i: usize = 0;
    proof {
        assert(events@.take(0) =~= Seq::empty());
        assert(content::span_views(spans@) =~= Seq::empty());
        assert(buffer@ =~= Seq::empty());
    }
    while i < events.len()
        invariant
            i <= events@.len(),
            well_formed(command@, events@),
            content::span_views(spans@) == progress(
                command@,
                events@.take(i as int),
                base_style,
            ).spans,
            buffer@ == progress(command@, events@.take(i as int), base_style).buffer,
            styles@ == progress(command@, events@.take(i as int), base_style).styles,
        decreases events@.len() - i,
    {
        let ghost before = spans@;
        proof {
            lemma_styles(command@, events@, base_style, i as int);
            assert(nesting(events@.take(i as int)) >= 0);
            assert(nesting(events@.take(i + 1)) >= 0);
            assert(events@.take(i + 1).drop_last() =~= events@.take(i as int));
            assert(events@.take(i + 1).last() == events@[i as int]);
        }
        let style = styles[styles.len() - 1];
        match events[i] {
            HighlightEvent::Source { start, end } => {
                buffer.append(slice(command, start, end));
            },
            HighlightEvent::HighlightStart(highlight) => {
                if !buffer.as_str().is_empty() {
                    spans.push(Span::styled(buffer.as_str(), style));
                    assert(content::span_views(spans@) =~= content::span_views(before).push(
                        content::styled(buffer@, style),
                    ));
                    buffer = String::new();
                }
                assert(buffer@ =~= Seq::empty());
                styles.push(get_style_for_highlight(highlight, style));
            },
            HighlightEvent::HighlightEnd => {
                styles.pop();
                spans.push(Span::styled(buffer.as_str(), style));
                assert(content::span_views(spans@) =~= content::span_views(before).push(
                    content::styled(buffer@, style),
                ));
                buffer = String::new();
                assert(buffer@ =~= Seq::empty());
            },
        }
        i = i + 1;
    }
    assert(events@.take(i as int) =~= events@);
    if !buffer.as_str().is_empty() {
        let ghost before = spans@;
        proof {
            lemma_styles(command@, events@, base_style, events@.len() as int);
        }
        let style = styles[styles.len() - 1];
        spans.push(Span::styled(buffer.as_str(), style));
        assert(content::span_views(spans@) =~= content::span_views(before).push(
            content::styled(buffer@, style),
        ));
    }
    spans
}

/// Whether the range is one of whole characters of the text.
fn is_range(command: &str, start: usize, end: usize) -> (r: bool)
    ensures
        r == is_part(command@, start as int, end as int),
{
    broadcast use encode_utf8_valid_utf8;

    start <= end && command.is_char_boundary(start) && command.is_char_boundary(end)
}

/// Whether the steps fit the text and each other.
fn are_well_formed(command: &str, events: &Vec<HighlightEvent>) -> (r: bool)
    ensures
        r == well_formed(command@, events@),
{
    let mut depth: usize = 0;
    let mut i: usize = 0;
    assert(events@.take(0) =~= Seq::empty());
    while i < events.len()
        invariant
            i <= events@.len(),
            depth <= i,
            depth == nesting(events@.take(i as int)),
            forall|j: int|
                0 <= j < i ==> match #[trigger] events@[j] {
                    HighlightEvent::Source { start, end } => is_part(
                        command@,
                        start as int,
                        end as int,
                    ),
                    _ => true,
                },
            forall|n: int| 0 <= n <= i ==> #[trigger] nesting(events@.take(n)) >= 0,
        decreases events@.len() - i,
    {
        proof {
            assert(events@.take(i + 1).drop_last() =~= events@.take(i as int));
            assert(events@.take(i + 1).last() == events@[i as int]);
        }
        match events[i] {
            HighlightEvent::Source { start, end } => {
                if !is_range(command, start, end) {
                    return false;
                }
            },
            HighlightEvent::HighlightStart(_) => {
                depth = depth + 1;
            },
            HighlightEvent::HighlightEnd => {
                if depth == 0 {
                    assert(nesting(events@.take(i + 1)) < 0);
                    return false;
                }
                depth = depth - 1;
            },
        }
        i = i + 1;
    }
    assert(events@.take(i as int) =~= events@);
    depth == 0
}

/// Highlights a shell command, over the given style.
pub fn highlight_command_to_spans(
    command: &str,
    base_style: Style,
) -> (r: Result<Vec<Span>, HighlightError>)
    ensures
        match highlight_events(command@, recognized_names()) {
            None => r matches Err(error) && error == HighlightError::Failed,
            Some(events) => if well_formed(command@, events) {
                r matches Ok(spans) && content::span_views(spans@) == highlighted(
                    command@,
                    events,
                    base_style,
                )
            } else {
                r matches Err(error) && error == HighlightError::Malformed
            },
        },
        r matches Ok(spans) ==> spans_text(content::span_views(spans@)) == command@,
        r matches Ok(spans) ==> forall|i: int|
            0 <= i < spans@.len() ==> recolors((#[trigger] spans@[i]).style, base_style),
{
    match highlight(command, &list_names()) {
        Ok(events) => if are_well_formed(command, &events) {
            let spans = render_events(command, &events, base_style);
            proof {
                lemma_position(command@, events@);
                law_highlighted_command_is_whole(command@, events@, base_style);
                law_highlighting_changes_only_colors(command@, events@, base_style);
                let views = content::span_views(spans@);
                assert forall|i: int| 0 <= i < spans@.len() implies recolors(
                    (#[trigger] spans@[i]).style,
                    base_style,
                ) by {
                    assert(views[i].style == spans@[i].style);
                }
            }
            Ok(spans)
        } else {
            Err(HighlightError::Malformed)
        },
        Err(_) => Err(HighlightError::Failed),
    }
}

/// Whether a style differs from another one in the color of the text at most. Text that is bold or
/// crossed out stays so.
pub open spec fn recolors(style: Style, base_style: Style) -> bool {
    style == Style { fg: style.fg, ..base_style }
}

proof fn lemma_progress_recolors(
    command: Seq<char>,
    events: Seq<HighlightEvent>,
    base_style: Style,
    n: int,
)
    requires
        well_formed(command, events),
        0 <= n <= events.len(),
    ensures
        ({
            let reached = progress(command, events.take(n), base_style);
            &&& forall|i: int|
                0 <= i < reached.spans.len() ==> recolors(
                    (#[trigger] reached.spans[i]).style,
                    base_style,
                )
            &&& forall|i: int|
                0 <= i < reached.styles.len() ==> recolors(
                    #[trigger] reached.styles[i],
                    base_style,
                )
        }),
    decreases n,
{
    if n > 0 {
        assert(events.take(n).drop_last() =~= events.take(n - 1));
        assert(nesting(events.take(n - 1)) >= 0);
        lemma_styles(command, events, base_style, n - 1);
        lemma_progress_recolors(command, events, base_style, n - 1);
    }
}

/// Highlighting changes nothing but colors: each span is as bold, and as crossed out, as the style
/// that is highlighted over.
pub proof fn law_highlighting_changes_only_colors(
    command: Seq<char>,
    events: Seq<HighlightEvent>,
    base_style: Style,
)
    requires
        well_formed(command, events),
    ensures
        forall|i: int|
            0 <= i < highlighted(command, events, base_style).len() ==> {
                let style = (#[trigger] highlighted(command, events, base_style)[i]).style;
                &&& recolors(style, base_style)
                &&& style.bold == base_style.bold
                &&& style.crossed_out == base_style.crossed_out
            },
{
    let n = events.len() as int;
    assert(events.take(n) =~= events);
    lemma_styles(command, events, base_style, n);
    lemma_progress_recolors(command, events, base_style, n);
}

/// The text that the steps bring up.
pub open spec fn source_text(command: Seq<char>, events: Seq<HighlightEvent>) -> Seq<char>
    decreases events.len(),
{
    if events.len() == 0 {
        Seq::empty()
    } else {
        source_text(command, events.drop_last()) + match events.last() {
            HighlightEvent::Source { start, end } => part(command, start as int, end as int),
            _ => Seq::empty(),
        }
    }
}

/// The text of spans.
pub open spec fn spans_text(spans: Seq<SpanView>) -> Seq<char>
    decreases spans.len(),
{
    if spans.len() == 0 {
        Seq::empty()
    } else {
        spans_text(spans.drop_last()) + spans.last().content
    }
}

proof fn lemma_progress_text(command: Seq<char>, events: Seq<HighlightEvent>, base_style: Style)
    ensures
        ({
            let reached = progress(command, events, base_style);
            spans_text(reached.spans) + reached.buffer == source_text(command, events)
        }),
    decreases events.len(),
{
    let reached = progress(command, events, base_style);
    if events.len() > 0 {
        let before = progress(command, events.drop_last(), base_style);
        lemma_progress_text(command, events.drop_last(), base_style);
        match events.last() {
            HighlightEvent::Source { start, end } => {
                assert(spans_text(before.spans) + (before.buffer + part(
                    command,
                    start as int,
                    end as int,
                )) =~= source_text(command, events));
            },
            HighlightEvent::HighlightStart(_) => {
                assert(before.buffer.len() > 0 ==> reached.spans.drop_last() =~= before.spans);
                assert(spans_text(reached.spans) =~= spans_text(before.spans) + before.buffer);
                assert(spans_text(reached.spans) + reached.buffer =~= source_text(command, events));
            },
            HighlightEvent::HighlightEnd => {
                assert(reached.spans.drop_last() =~= before.spans);
                assert(spans_text(reached.spans) + reached.buffer =~= source_text(command, events));
            },
        }
    }
}

/// Highlighting changes no text: the spans hold just what the steps bring up, in order.
pub proof fn law_highlighting_keeps_the_text(
    command: Seq<char>,
    events: Seq<HighlightEvent>,
    base_style: Style,
)
    ensures
        spans_text(highlighted(command, events, base_style)) == source_text(command, events),
{
    let reached = progress(command, events, base_style);
    let spans = reached.finished();
    lemma_progress_text(command, events, base_style);
    if reached.buffer.len() > 0 {
        assert(spans.drop_last() =~= reached.spans);
    } else {
        assert(spans_text(spans) =~= spans_text(reached.spans) + reached.buffer);
    }
}

proof fn lemma_position(command: Seq<char>, events: Seq<HighlightEvent>)
    requires
        position(events) >= 0,
        forall|i: int|
            0 <= i < events.len() ==> match #[trigger] events[i] {
                HighlightEvent::Source { start, end } => is_part(command, start as int, end as int),
                _ => true,
            },
    ensures
        source_text(command, events) == part(command, 0, position(events)),
        is_part(command, 0, position(events)),
    decreases events.len(),
{
    broadcast use encode_utf8_valid_utf8;

    let bytes = encode_utf8(command);
    is_char_boundary_start_end_of_seq(bytes);
    if events.len() == 0 {
        assert(bytes.subrange(0, 0) =~= Seq::empty());
        assert(decode_utf8(Seq::empty()) =~= Seq::empty());
    } else {
        let rest = events.drop_last();
        assert forall|i: int| 0 <= i < rest.len() implies match #[trigger] rest[i] {
            HighlightEvent::Source { start, end } => is_part(command, start as int, end as int),
            _ => true,
        } by {
            assert(rest[i] == events[i]);
        }
        lemma_position(command, rest);
        match events.last() {
            HighlightEvent::Source { start, end } => {
                assert(events[events.len() - 1] == events.last());
                let head = bytes.subrange(0, end as int);
                valid_utf8_split(bytes, end as int);
                if start < end {
                    is_char_boundary_iff_not_is_continuation_byte(bytes, start as int);
                    is_char_boundary_iff_not_is_continuation_byte(head, start as int);
                    assert(head[start as int] == bytes[start as int]);
                } else {
                    is_char_boundary_start_end_of_seq(head);
                }
                decode_utf8_split(head, start as int);
                assert(head.subrange(0, start as int) =~= bytes.subrange(0, start as int));
                assert(head.subrange(start as int, head.len() as int) =~= bytes.subrange(
                    start as int,
                    end as int,
                ));
            },
            _ => {
                assert(source_text(command, events) =~= source_text(command, rest));
            },
        }
    }
}

/// Steps that run through the whole command without a gap make spans that hold just the command.
pub proof fn law_highlighted_command_is_whole(
    command: Seq<char>,
    events: Seq<HighlightEvent>,
    base_style: Style,
)
    requires
        well_formed(command, events),
        position(events) == encode_utf8(command).len(),
    ensures
        spans_text(highlighted(command, events, base_style)) == command,
{
    broadcast use encode_utf8_decode_utf8;

    lemma_position(command, events);
    law_highlighting_keeps_the_text(command, events, base_style);
    let bytes = encode_utf8(command);
    assert(bytes.subrange(0, bytes.len() as int) =~= bytes);
}

/// The highlights have colors: strings are green, functions red, properties blue, keywords yellow,
/// comments gray and numbers cyan. All others, and the rest of the style, are left as they are.
pub proof fn law_highlights_have_colors(highlight: usize, style: Style)
    ensures
        ({
            let names = recognized_names();
            let after = highlight_style(highlight, style);
            &&& names.len() == 9
            &&& names[0] == "string"@ && highlight_style(0, style).fg == Some(Color::Green)
            &&& names[1] == "function"@ && highlight_style(1, style).fg == Some(Color::Red)
            &&& names[2] == "property"@ && highlight_style(2, style).fg == Some(Color::Blue)
            &&& names[3] == "keyword"@ && highlight_style(3, style).fg == Some(Color::Yellow)
            &&& names[4] == "comment"@ && highlight_style(4, style).fg == Some(Color::Gray)
            &&& names[5] == "number"@ && highlight_style(5, style).fg == Some(Color::Cyan)
            &&& names[6] == "embedded"@ && names[7] == "operator"@ && names[8] == "constant"@
            &&& highlight >= 6 ==> after == style
            &&& after == Style { fg: after.fg, ..style }
        }),
{
}

/// Steps that are taken behind others, where no text waits for its span, do what they do from the
/// start, in the style that is reached.
proof fn lemma_progress_behind(
    command: Seq<char>,
    before: Seq<HighlightEvent>,
    events: Seq<HighlightEvent>,
    base_style: Style,
)
    requires
        forall|n: int| 0 <= n <= events.len() ==> nesting(#[trigger] events.take(n)) >= 0,
        progress(command, before, base_style).buffer.len() == 0,
        progress(command, before, base_style).styles.len() > 0,
    ensures
        ({
            let reached = progress(command, before, base_style);
            let own = progress(command, events, reached.styles.last());
            let all = progress(command, before + events, base_style);
            &&& all.spans == reached.spans + own.spans
            &&& all.buffer == own.buffer
            &&& all.styles == reached.styles.drop_last() + own.styles
            &&& own.styles.len() == nesting(events) + 1
        }),
    decreases events.len(),
{
    let reached = progress(command, before, base_style);
    if events.len() == 0 {
        assert(before + events =~= before);
        assert(reached.spans + Seq::<SpanView>::empty() =~= reached.spans);
        assert(reached.buffer =~= Seq::empty());
        assert(reached.styles.drop_last() + seq![reached.styles.last()] =~= reached.styles);
    } else {
        let rest = events.drop_last();
        let n = rest.len() as int;
        assert forall|k: int| 0 <= k <= rest.len() implies nesting(#[trigger] rest.take(k)) >= 0 by {
            assert(rest.take(k) =~= events.take(k));
        }
        lemma_progress_behind(command, before, rest, base_style);
        assert((before + events).drop_last() =~= before + rest);
        assert((before + events).last() == events.last());
        assert(rest =~= events.take(n));
        assert(events =~= events.take(n + 1));
        assert(nesting(events.take(n)) >= 0);
        assert(nesting(events.take(n + 1)) >= 0);
        let base = reached.styles.last();
        let own = progress(command, rest, base);
        let all = progress(command, before + rest, base_style);
        let outer = reached.styles.drop_last();
        assert(all.styles.last() == own.styles.last());
        match events.last() {
            HighlightEvent::Source { start, end } => {},
            HighlightEvent::HighlightStart(highlight) => {
                let style = highlight_style(highlight, own.styles.last());
                let span = content::styled(own.buffer, own.styles.last());
                assert((outer + own.styles).push(style) =~= outer + own.styles.push(style));
                assert((reached.spans + own.spans).push(span) =~= reached.spans + own.spans.push(
                    span,
                ));
            },
            HighlightEvent::HighlightEnd => {
                let span = content::styled(own.buffer, own.styles.last());
                assert((outer + own.styles).drop_last() =~= outer + own.styles.drop_last());
                assert((reached.spans + own.spans).push(span) =~= reached.spans + own.spans.push(
                    span,
                ));
            },
        }
    }
}

/// Text outside of highlights is shown in the style around it.
pub proof fn law_plain_text_keeps_its_style(
    command: Seq<char>,
    start: usize,
    end: usize,
    base_style: Style,
)
    ensures
        ({
            let spans = highlighted(
                command,
                seq![HighlightEvent::Source { start, end }],
                base_style,
            );
            let text = part(command, start as int, end as int);
            if text.len() > 0 {
                spans == seq![SpanView { content: text, style: base_style }]
            } else {
                spans.len() == 0
            }
        }),
{
    let events = seq![HighlightEvent::Source { start, end }];
    reveal_with_fuel(progress, 2);
    assert(events.drop_last() =~= Seq::empty());
    let text = part(command, start as int, end as int);
    assert(Seq::<char>::empty() + text =~= text);
    assert(highlighted(command, events, base_style) =~= if text.len() > 0 {
        seq![SpanView { content: text, style: base_style }]
    } else {
        Seq::empty()
    });
}

/// What is inside a highlight is shown as it would be by itself in the style of that highlight.
pub proof fn law_highlights_recolor_what_is_inside(
    command: Seq<char>,
    highlight: usize,
    events: Seq<HighlightEvent>,
    base_style: Style,
)
    requires
        is_balanced(events),
    ensures
        ({
            let style = highlight_style(highlight, base_style);
            let inside = highlighted(command, events, style);
            let spans = highlighted(
                command,
                seq![HighlightEvent::HighlightStart(highlight)] + events + seq![
                    HighlightEvent::HighlightEnd,
                ],
                base_style,
            );
            spans == inside || spans == inside.push(SpanView { content: Seq::empty(), style })
        }),
{
    let begin = seq![HighlightEvent::HighlightStart(highlight)];
    let end = seq![HighlightEvent::HighlightEnd];
    let style = highlight_style(highlight, base_style);
    reveal_with_fuel(progress, 2);
    assert(begin.drop_last() =~= Seq::empty());
    let reached = progress(command, begin, base_style);
    assert(reached.styles =~= seq![base_style, style]);
    assert(reached.spans =~= Seq::empty());
    lemma_progress_behind(command, begin, events, base_style);
    let own = progress(command, events, style);
    let all = progress(command, begin + events, base_style);
    assert(all.spans =~= own.spans);
    assert(all.styles.last() == own.styles.last());
    assert(own.styles.len() == 1);
    lemma_first_style(command, events, style);
    assert(own.styles[0] == style);
    let whole = begin + events + end;
    assert(whole.drop_last() =~= begin + events);
    let spans = highlighted(command, whole, base_style);
    assert(spans == own.spans.push(content::styled(own.buffer, style)));
    let inside = highlighted(command, events, style);
    if own.buffer.len() == 0 {
        assert(own.buffer =~= Seq::empty());
        assert(spans =~= inside.push(SpanView { content: Seq::empty(), style }));
    } else {
        assert(spans =~= inside);
    }
}

/// The outermost style stays.
proof fn lemma_first_style(command: Seq<char>, events: Seq<HighlightEvent>, base_style: Style)
    requires
        forall|n: int| 0 <= n <= events.len() ==> nesting(#[trigger] events.take(n)) >= 0,
    ensures
        progress(command, events, base_style).styles.len() == nesting(events) + 1,
        progress(command, events, base_style).styles[0] == base_style,
    decreases events.len(),
{
    if events.len() > 0 {
        let rest = events.drop_last();
        let n = rest.len() as int;
        assert forall|k: int| 0 <= k <= rest.len() implies nesting(#[trigger] rest.take(k)) >= 0 by {
            assert(rest.take(k) =~= events.take(k));
        }
        lemma_first_style(command, rest, base_style);
        assert(rest =~= events.take(n));
        assert(events =~= events.take(n + 1));
        assert(nesting(events.take(n)) >= 0);
        assert(nesting(events.take(n + 1)) >= 0);
    }
}

/// A highlight does not reach beyond its end: what comes behind it is shown as it would be by
/// itself.
pub proof fn law_highlights_end(
    command: Seq<char>,
    before: Seq<HighlightEvent>,
    events: Seq<HighlightEvent>,
    base_style: Style,
)
    requires
        is_balanced(before),
        is_balanced(events),
        before.len() > 0,
        before.last() is HighlightEnd,
    ensures
        highlighted(command, before + events, base_style) == highlighted(
            command,
            before,
            base_style,
        ) + highlighted(command, events, base_style),
{
    let reached = progress(command, before, base_style);
    lemma_first_style(command, before, base_style);
    lemma_first_style(command, events, base_style);
    assert(reached.buffer.len() == 0);
    assert(reached.styles.last() == base_style);
    lemma_progress_behind(command, before, events, base_style);
    let own = progress(command, events, base_style);
    let all = progress(command, before + events, base_style);
    assert(all.styles.last() == own.styles.last());
    assert(highlighted(command, before + events, base_style) =~= highlighted(
        command,
        before,
        base_style,
    ) + highlighted(command, events, base_style));
}

} // verus!
