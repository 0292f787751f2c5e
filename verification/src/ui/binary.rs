//! Rendering of output that need not be text.

use crate::text;
use crate::ui::content;
use crate::ui::content::{Line, Span, SpanView, Text, TextView};
use crate::ui::geometry::{Rect, Size};
use crate::ui::style::{Color, Style};
use bstr::ByteSlice;
use vstd::prelude::*;
use vstd::utf8::*;

verus! {

/// What is shown for bytes that are not valid UTF-8.
pub const UNICODE_REPLACEMENT_CODEPOINT: &'static str = "\u{FFFD}";

/// The grapheme that starts a new row.
pub open spec fn newline() -> Seq<char> {
    seq!['\n']
}

/// The grapheme that stands for bytes that are not valid UTF-8.
pub open spec fn replacement() -> Seq<char> {
    seq!['\u{FFFD}']
}

/// The texts, one behind the other.
pub open spec fn concatenated(parts: Seq<Seq<char>>) -> Seq<char>
    decreases parts.len(),
{
    if parts.len() == 0 {
        Seq::empty()
    } else {
        concatenated(parts.drop_last()) + parts.last()
    }
}

/// The grapheme clusters of the given bytes.
pub uninterp spec fn graphemes_of(bytes: Seq<u8>) -> Seq<Seq<char>>;

/// `bstr`'s `grapheme_indices` finds the grapheme clusters, which depend on the bytes alone. None of
/// them is empty. Those of valid UTF-8 make up the whole text; each invalid sequence is replaced by
/// U+FFFD.
#[verifier::external_body]
fn graphemes(buf: &[u8]) -> (r: Vec<String>)
    ensures
        text::string_views(r@) == graphemes_of(buf@),
        forall|i: int| 0 <= i < r@.len() ==> (#[trigger] r@[i])@.len() > 0,
        valid_utf8(buf@) ==> concatenated(text::string_views(r@)) == decode_utf8(buf@),
{
    bstr::BStr::new(buf).grapheme_indices().map(|(_, _, grapheme)| grapheme.to_owned()).collect()
}

/// The rows that the graphemes fall into: a newline ends a row and belongs to none.
pub open spec fn rows(graphemes: Seq<Seq<char>>) -> Seq<Seq<Seq<char>>>
    decreases graphemes.len(),
{
    if graphemes.len() == 0 {
        seq![Seq::empty()]
    } else {
        let before = rows(graphemes.drop_last());
        if graphemes.last() == newline() {
            before.push(Seq::empty())
        } else {
            before.drop_last().push(before.last().push(graphemes.last()))
        }
    }
}

/// The style of a grapheme.
pub open spec fn grapheme_style(grapheme: Seq<char>) -> Style {
    if grapheme == replacement() {
        Style::plain().fg(Color::LightRed)
    } else {
        Style::plain()
    }
}

/// Whether the grapheme at `i` continues the span of the one before it: both are replacements or
/// neither is, and no multiple of the width lies between them.
pub open spec fn continues(row: Seq<Seq<char>>, width: int, i: int) -> bool {
    &&& i % width != 0
    &&& (row[i - 1] == replacement()) == (row[i] == replacement())
}

/// The spans that show a row.
pub open spec fn row_spans(row: Seq<Seq<char>>, width: int) -> Seq<SpanView>
    decreases row.len(),
{
    if row.len() == 0 {
        Seq::empty()
    } else {
        let before = row_spans(row.drop_last(), width);
        let last = row.last();
        if continues(row, width, row.len() - 1) {
            before.drop_last().push(
                SpanView { content: before.last().content + last, ..before.last() },
            )
        } else {
            before.push(SpanView { content: last, style: grapheme_style(last) })
        }
    }
}

/// The lines that show the graphemes: as many as the area is high.
pub open spec fn rendered(graphemes: Seq<Seq<char>>, area: Size) -> Seq<Seq<SpanView>> {
    Seq::new(
        area.height as nat,
        |i: int|
            if i < rows(graphemes).len() {
                row_spans(rows(graphemes)[i], area.width as int)
            } else {
                Seq::empty()
            },
    )
}

/// Whether the area has room for something of each row that reaches it: there is a first line
/// unless the first row is empty, and a column unless all rows that have a line are empty.
pub open spec fn has_room(graphemes: Seq<Seq<char>>, area: Size) -> bool {
    let all = rows(graphemes);
    &&& area.height == 0 ==> all[0].len() == 0
    &&& area.width == 0 ==> forall|i: int|
        0 <= i < all.len() && i < area.height ==> (#[trigger] all[i]).len() == 0
}

fn is_newline(grapheme: &str) -> (r: bool)
    ensures
        r == (grapheme@ == newline()),
{
    proof {
        reveal_strlit("\n");
        assert("\n"@ =~= newline());
    }
    *grapheme == *"\n"
}

fn is_replacement(grapheme: &str) -> (r: bool)
    ensures
        r == (grapheme@ == replacement()),
{
    proof {
        reveal_strlit("\u{FFFD}");
        assert("\u{FFFD}"@ =~= replacement());
    }
    *grapheme == *UNICODE_REPLACEMENT_CODEPOINT
}

/// Puts a grapheme behind a line, into its last span if it continues that one.
fn add_grapheme(line: &mut Line, grapheme: &str, continued: bool)
    requires
        continued ==> old(line)@.len() > 0,
    ensures
        final(line)@ == (if continued {
            old(line)@.drop_last().push(
                SpanView {
                    content: old(line)@.last().content + grapheme@,
                    ..old(line)@.last()
                },
            )
        } else {
            old(line)@.push(SpanView { content: grapheme@, style: grapheme_style(grapheme@) })
        }),
{
    let ghost before = line@;
    if continued {
        let last: usize = line.spans.len() - 1;
        line.spans[last].content.append(grapheme);
        assert(line@ =~= before.drop_last().push(
            SpanView { content: before.last().content + grapheme@, ..before.last() },
        ));
    } else {
        let style = if is_replacement(grapheme) {
            Style::plain().fg(Color::LightRed)
        } else {
            Style::plain()
        };
        line.spans.push(Span::styled(grapheme, style));
        assert(line@ =~= before.push(
            SpanView { content: grapheme@, style: grapheme_style(grapheme@) },
        ));
    }
}

proof fn lemma_rows_not_empty(graphemes: Seq<Seq<char>>)
    ensures
        rows(graphemes).len() > 0,
    decreases graphemes.len(),
{
    if graphemes.len() > 0 {
        lemma_rows_not_empty(graphemes.drop_last());
    }
}

proof fn lemma_row_spans_not_empty(row: Seq<Seq<char>>, width: int)
    requires
        row.len() > 0,
        width > 0,
    ensures
        row_spans(row, width).len() > 0,
    decreases row.len(),
{
    if continues(row, width, row.len() - 1) {
        assert(0int % width == 0) by (nonlinear_arith)
            requires
                width > 0,
        ;
        lemma_row_spans_not_empty(row.drop_last(), width);
    }
}

/// More graphemes leave all rows but the last one as they are, and do not shorten that one.
proof fn lemma_rows_grow(graphemes: Seq<Seq<char>>, n: int)
    requires
        0 <= n <= graphemes.len(),
    ensures
        ({
            let some = rows(graphemes.take(n));
            let all = rows(graphemes);
            &&& 0 < some.len() <= all.len()
            &&& forall|i: int| 0 <= i < some.len() - 1 ==> #[trigger] all[i] == some[i]
            &&& all[some.len() - 1].len() >= some.last().len()
        }),
    decreases graphemes.len(),
{
    lemma_rows_not_empty(graphemes.take(n));
    if n == graphemes.len() {
        assert(graphemes.take(n) =~= graphemes);
    } else {
        assert(graphemes.drop_last().take(n) =~= graphemes.take(n));
        lemma_rows_grow(graphemes.drop_last(), n);
    }
}

/// Brings the number of lines to the given height, and empties all of them. Lines that are there
/// already keep the room that they have for spans.
fn clear_lines(lines: &mut Vec<Line>, height: usize)
    ensures
        final(lines)@.len() == height,
        forall|i: int|
            0 <= i < height ==> (#[trigger] final(lines)@[i])@ == Seq::<SpanView>::empty(),
{
    if lines.len() > height {
        lines.truncate(height);
    }
    let mut i: usize = 0;
    while i < lines.len()
        invariant
            i <= lines@.len() <= height,
            forall|j: int| 0 <= j < i ==> (#[trigger] lines@[j])@ == Seq::<SpanView>::empty(),
        decreases lines@.len() - i,
    {
        lines[i].spans.clear();
        assert(lines@[i as int]@ =~= Seq::<SpanView>::empty());
        i = i + 1;
    }
    while lines.len() < height
        invariant
            lines@.len() <= height,
            forall|j: int|
                0 <= j < lines@.len() ==> (#[trigger] lines@[j])@ == Seq::<SpanView>::empty(),
        decreases height - lines@.len(),
    {
        lines.push(Line::empty());
    }
}

/// Renders graphemes into the given text, whose lines are replaced.
pub fn render_graphemes(graphemes: &Vec<String>, area: Size, text: &mut Text)
    requires
        has_room(text::string_views(graphemes@), area),
    ensures
        final(text)@ == (TextView {
            lines: rendered(text::string_views(graphemes@), area),
            style: old(text)@.style,
        }),
{
    let ghost all = text::string_views(graphemes@);
    let ghost width = area.width as int;
    let height: usize = area.height as usize;
    let mut lines: Vec<Line> = Vec::new();
    std::mem::swap(&mut lines, &mut text.lines);
    clear_lines(&mut lines, height);
    // The row that the next grapheme belongs to, and the number of graphemes it has so far.
    let mut current: usize = 0;
    let mut count: usize = 0;
    let mut i: usize = 0;
    proof {
        assert(all.take(0) =~= Seq::empty());
    }
    while i < graphemes.len() && current < height
        invariant
            i <= graphemes@.len(),
            all == text::string_views(graphemes@),
            height == area.height,
            width == area.width,
            has_room(all, area),
            lines@.len() == height,
            current + 1 == rows(all.take(i as int)).len(),
            current <= i,
            count <= i,
            count == rows(all.take(i as int)).last().len(),
            count > 0 ==> rows(all.take(i as int)).last().last() == all[i - 1],
            forall|r: int|
                0 <= r < height ==> (#[trigger] lines@[r])@ == (if r <= current {
                    row_spans(rows(all.take(i as int))[r], width)
                } else {
                    Seq::empty()
                }),
        decreases graphemes@.len() - i,
    {
        let grapheme = graphemes[i].as_str();
        let ghost before = rows(all.take(i as int));
        let ghost after = rows(all.take(i + 1));
        proof {
            assert(all.take(i + 1).drop_last() =~= all.take(i as int));
            assert(all.take(i + 1).last() == grapheme@);
        }
        if is_newline(grapheme) {
            current = current + 1;
            count = 0;
            assert(row_spans(Seq::empty(), width) =~= Seq::empty());
        } else {
            proof {
                lemma_rows_grow(all, i + 1);
                assert(after.last() =~= before.last().push(grapheme@));
                assert(rows(all)[current as int].len() > 0);
                assert(width > 0);
            }
            let continued = count > 0 && count % (area.width as usize) != 0 && is_replacement(
                graphemes[i - 1].as_str(),
            ) == is_replacement(grapheme);
            proof {
                assert(0int % width == 0) by (nonlinear_arith)
                    requires
                        width > 0,
                ;
                if count > 0 {
                    lemma_row_spans_not_empty(before.last(), width);
                }
                assert(after.last().drop_last() =~= before.last());
            }
            add_grapheme(&mut lines[current], grapheme, continued);
            count = count + 1;
        }
        i = i + 1;
    }
    proof {
        lemma_rows_grow(all, i as int);
        assert(all.take(all.len() as int) =~= all);
        assert(content::line_views(lines@) =~= rendered(all, area));
    }
    text.lines = lines;
}

/// The text of a line.
pub open spec fn line_text(line: Seq<SpanView>) -> Seq<char> {
    concatenated(line.map_values(|span: SpanView| span.content))
}

/// Texts, with newlines between them.
pub open spec fn joined_rows(texts: Seq<Seq<char>>) -> Seq<char>
    decreases texts.len(),
{
    if texts.len() == 0 {
        Seq::empty()
    } else if texts.len() == 1 {
        texts[0]
    } else {
        joined_rows(texts.drop_last()) + newline() + texts.last()
    }
}

/// The texts of the rows.
pub open spec fn row_texts(rows: Seq<Seq<Seq<char>>>) -> Seq<Seq<char>> {
    rows.map_values(|row: Seq<Seq<char>>| concatenated(row))
}

/// The texts of the lines.
pub open spec fn line_texts(lines: Seq<Seq<SpanView>>) -> Seq<Seq<char>> {
    lines.map_values(|line: Seq<SpanView>| line_text(line))
}

/// The line of a row shows all of its graphemes, in order.
pub proof fn law_line_shows_its_row(row: Seq<Seq<char>>, width: int)
    requires
        row.len() > 0 ==> width > 0,
    ensures
        line_text(row_spans(row, width)) == concatenated(row),
    decreases row.len(),
{
    let spans = row_spans(row, width);
    let contents = spans.map_values(|span: SpanView| span.content);
    if row.len() == 0 {
        assert(contents =~= Seq::empty());
    } else {
        let before = row_spans(row.drop_last(), width);
        let old_contents = before.map_values(|span: SpanView| span.content);
        law_line_shows_its_row(row.drop_last(), width);
        if continues(row, width, row.len() - 1) {
            assert(0int % width == 0) by (nonlinear_arith)
                requires
                    width > 0,
            ;
            lemma_row_spans_not_empty(row.drop_last(), width);
            assert(contents.drop_last() =~= old_contents.drop_last());
            assert(contents.last() == old_contents.last() + row.last());
            assert(concatenated(old_contents.drop_last()) + (old_contents.last() + row.last())
                =~= concatenated(old_contents) + row.last());
        } else {
            assert(contents.drop_last() =~= old_contents);
        }
    }
}

proof fn lemma_joined_last_grows(texts: Seq<Seq<char>>, more: Seq<char>)
    requires
        texts.len() > 0,
    ensures
        joined_rows(texts.drop_last().push(texts.last() + more)) == joined_rows(texts) + more,
{
    let longer = texts.drop_last().push(texts.last() + more);
    assert(longer.drop_last() =~= texts.drop_last());
    if texts.len() > 1 {
        assert(joined_rows(texts.drop_last()) + newline() + (texts.last() + more) =~= joined_rows(
            texts,
        ) + more);
    }
}

/// The rows, with newlines between them, are all that the graphemes are.
pub proof fn law_rows_lose_nothing(graphemes: Seq<Seq<char>>)
    ensures
        joined_rows(row_texts(rows(graphemes))) == concatenated(graphemes),
    decreases graphemes.len(),
{
    let all = rows(graphemes);
    let texts = row_texts(all);
    if graphemes.len() == 0 {
        assert(texts =~= seq![Seq::<char>::empty()]);
    } else {
        let before = rows(graphemes.drop_last());
        let old_texts = row_texts(before);
        let last = graphemes.last();
        lemma_rows_not_empty(graphemes.drop_last());
        law_rows_lose_nothing(graphemes.drop_last());
        if last == newline() {
            assert(texts.drop_last() =~= old_texts);
            assert(texts.last() =~= Seq::empty());
            assert(joined_rows(texts) =~= joined_rows(old_texts) + last);
        } else {
            let row = before.last().push(last);
            assert(row.drop_last() =~= before.last());
            assert(texts =~= old_texts.drop_last().push(old_texts.last() + last));
            lemma_joined_last_grows(old_texts, last);
        }
    }
}

/// Where there are lines for all rows, the lines show all that the graphemes are.
pub proof fn law_lines_lose_nothing(graphemes: Seq<Seq<char>>, area: Size)
    requires
        has_room(graphemes, area),
        rows(graphemes).len() <= area.height,
    ensures
        joined_rows(line_texts(rendered(graphemes, area).take(rows(graphemes).len() as int)))
            == concatenated(graphemes),
{
    let all = rows(graphemes);
    let lines = rendered(graphemes, area).take(all.len() as int);
    assert forall|i: int| 0 <= i < all.len() implies line_texts(lines)[i] == #[trigger] row_texts(
        all,
    )[i] by {
        if all[i].len() > 0 {
            assert(area.width > 0);
        }
        law_line_shows_its_row(all[i], area.width as int);
    }
    assert(line_texts(lines) =~= row_texts(all));
    law_rows_lose_nothing(graphemes);
}

/// Whether the lines show exactly the text that the bytes encode. That is owed where the bytes are
/// valid UTF-8 and there are lines for all rows.
pub open spec fn shows_valid_text(buf: Seq<u8>, area: Size, lines: Seq<Seq<SpanView>>) -> bool {
    let count = rows(graphemes_of(buf)).len();
    valid_utf8(buf) && count <= area.height ==> joined_rows(line_texts(lines.take(count as int)))
        == decode_utf8(buf)
}

/// Renders binary data into the given text, whose lines are replaced. Valid UTF-8 graphemes are
/// rendered as they are, invalid ones are replaced with Unicode replacement codepoints. A text that
/// shows the data already stays as it is.
pub fn render_binary(buf: &[u8], area: Size, text: &mut Text)
    requires
        has_room(graphemes_of(buf@), area),
    ensures
        final(text)@ == (TextView {
            lines: rendered(graphemes_of(buf@), area),
            style: old(text)@.style,
        }),
        shows_valid_text(buf@, area, final(text)@.lines),
        old(text)@.lines == rendered(graphemes_of(buf@), area) ==> final(text)@ == old(text)@,
{
    let parts = graphemes(buf);
    proof {
        if rows(graphemes_of(buf@)).len() <= area.height {
            law_lines_lose_nothing(graphemes_of(buf@), area);
        }
    }
    render_graphemes(&parts, area, text);
}

/// Whether the area has room for something of each row that reaches it.
fn fits(graphemes: &Vec<String>, area: Size) -> (r: bool)
    ensures
        r == has_room(text::string_views(graphemes@), area),
{
    if area.width > 0 && area.height > 0 {
        return true;
    }
    let ghost all = text::string_views(graphemes@);
    // No row up to here may have anything to show.
    let limit: usize = if area.height == 0 {
        1
    } else {
        area.height as usize
    };
    let mut i: usize = 0;
    assert(all.take(0) =~= Seq::empty());
    while i < graphemes.len() && i < limit
        invariant
            i <= graphemes@.len(),
            i <= limit,
            all == text::string_views(graphemes@),
            limit == (if area.height == 0 {
                1
            } else {
                area.height as int
            }),
            area.width == 0 || area.height == 0,
            rows(all.take(i as int)).len() == i + 1,
            forall|r: int| 0 <= r <= i ==> (#[trigger] rows(all.take(i as int))[r]).len() == 0,
        decreases graphemes@.len() - i,
    {
        proof {
            assert(all.take(i + 1).drop_last() =~= all.take(i as int));
        }
        if !is_newline(graphemes[i].as_str()) {
            proof {
                lemma_rows_grow(all, i + 1);
                assert(rows(all)[i as int].len() > 0);
            }
            return false;
        }
        i = i + 1;
    }
    proof {
        lemma_rows_grow(all, i as int);
        assert(all.take(all.len() as int) =~= all);
        assert forall|r: int| 0 <= r < rows(all).len() && r < limit implies (#[trigger] rows(
            all,
        )[r]).len() == 0 by {
            assert(rows(all.take(i as int))[r].len() == 0);
        }
    }
    true
}

/// Renders binary data over the given style, where the area has room for it.
pub fn render_bytes(buf: &[u8], area: Rect, style: Style) -> (r: Option<Text>)
    ensures
        ({
            let size = Size { width: area.width, height: area.height };
            if has_room(graphemes_of(buf@), size) {
                r matches Some(text) && {
                    &&& text@ == TextView { lines: rendered(graphemes_of(buf@), size), style }
                    &&& shows_valid_text(buf@, size, text@.lines)
                }
            } else {
                r is None
            }
        }),
{
    let size = area.as_size();
    if (size.width > 0 && size.height > 0) || fits(&graphemes(buf), size) {
        let mut text = Text::empty(style);
        render_binary(buf, size, &mut text);
        Some(text)
    } else {
        None
    }
}

/// No row holds a newline.
pub proof fn law_rows_hold_no_newlines(graphemes: Seq<Seq<char>>)
    ensures
        forall|i: int, j: int|
            0 <= i < rows(graphemes).len() && 0 <= j < rows(graphemes)[i].len()
                ==> #[trigger] rows(graphemes)[i][j] != seq!['\n'],
    decreases graphemes.len(),
{
    let all = rows(graphemes);
    if graphemes.len() > 0 {
        let before = rows(graphemes.drop_last());
        lemma_rows_not_empty(graphemes.drop_last());
        law_rows_hold_no_newlines(graphemes.drop_last());
        assert forall|i: int, j: int|
            0 <= i < all.len() && 0 <= j < all[i].len() implies #[trigger] all[i][j] != seq![
            '\n',
        ] by {
            if i < before.len() && j < before[i].len() {
                assert(all[i][j] == before[i][j]);
            }
        }
    }
}

/// There are as many lines as the area is high. Each line shows the row at its place, cut nowhere,
/// and lines behind the last row are empty.
pub proof fn law_lines_show_their_rows(graphemes: Seq<Seq<char>>, area: Size, i: int)
    requires
        has_room(graphemes, area),
        0 <= i < area.height,
    ensures
        rendered(graphemes, area).len() == area.height,
        i < rows(graphemes).len() ==> line_text(rendered(graphemes, area)[i]) == concatenated(
            rows(graphemes)[i],
        ),
        i >= rows(graphemes).len() ==> rendered(graphemes, area)[i].len() == 0,
{
    if i < rows(graphemes).len() {
        law_line_shows_its_row(rows(graphemes)[i], area.width as int);
    }
}

/// A grapheme is put into the last span of its line if that is full neither of the width nor of
/// graphemes of the other kind, and starts a new span otherwise. Graphemes that stand for invalid
/// bytes are red; all others have no color.
pub proof fn law_graphemes_are_grouped(row: Seq<Seq<char>>, grapheme: Seq<char>, width: int)
    requires
        width > 0,
    ensures
        ({
            let before = row_spans(row, width);
            let after = row_spans(row.push(grapheme), width);
            let invalid = seq!['\u{FFFD}'];
            let joined = row.len() > 0 && row.len() % (width as nat) != 0 && (row.last() == invalid
                <==> grapheme == invalid);
            &&& joined ==> {
                &&& before.len() > 0
                &&& after.len() == before.len()
                &&& after.drop_last() == before.drop_last()
                &&& after.last().content == before.last().content + grapheme
                &&& after.last().style == before.last().style
            }
            &&& !joined ==> {
                &&& after.len() == before.len() + 1
                &&& after.drop_last() == before
                &&& after.last().content == grapheme
                &&& after.last().style == Style {
                    fg: if grapheme == invalid {
                        Some(Color::LightRed)
                    } else {
                        None
                    },
                    bg: None,
                    bold: false,
                    crossed_out: false,
                }
            }
        }),
{
    let more = row.push(grapheme);
    assert(more.drop_last() =~= row);
    assert(0int % width == 0) by (nonlinear_arith)
        requires
            width > 0,
    ;
    if row.len() > 0 {
        lemma_row_spans_not_empty(row, width);
        assert(more[row.len() - 1] == row.last());
    }
    let before = row_spans(row, width);
    let after = row_spans(more, width);
    if continues(more, width, row.len() as int) {
        assert(after.drop_last() =~= before.drop_last());
    } else {
        assert(after.drop_last() =~= before);
    }
}

/// Any area that is not empty has room. One without a line has room for a first row without
/// anything in it.
pub proof fn law_area_has_room(graphemes: Seq<Seq<char>>)
    ensures
        forall|area: Size|
            #![trigger has_room(graphemes, area)]
            area.width > 0 && area.height > 0 ==> has_room(graphemes, area),
        forall|area: Size|
            #![trigger has_room(graphemes, area)]
            area.height == 0 ==> (has_room(graphemes, area) <==> rows(graphemes)[0].len() == 0),
{
}

} // verus!
