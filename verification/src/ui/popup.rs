//! A popup that offers actions under keys.

use crate::ui::action::Action;
use crate::ui::content;
use crate::ui::content::{Line, Span, SpanView, Text};
use crate::ui::frame::{Alignment, Draw, DrawView, Frame};
use crate::ui::geometry::Rect;
use crate::ui::key;
use crate::ui::key::{Event, KeyCode, KeyEvent, KeyEventKind, KeyModifiers};
use crate::ui::key_name;
use crate::ui::layout;
use crate::ui::layout::{Constraint, Direction, Flex};
use crate::ui::style::{Color, Style};
use vstd::prelude::*;

verus! {

/// An entry of a popup: the key, what it does in words, and the action.
pub struct PopupKey {
    pub modifiers: KeyModifiers,
    pub code: KeyCode,
    pub description: &'static str,
    pub action: Action,
}

/// The view of an entry.
pub struct PopupKeyView {
    pub modifiers: KeyModifiers,
    pub code: KeyCode,
    pub description: Seq<char>,
    pub action: Action,
}

impl View for PopupKey {
    type V = PopupKeyView;

    open spec fn view(&self) -> PopupKeyView {
        PopupKeyView {
            modifiers: self.modifiers,
            code: self.code,
            description: self.description@,
            action: self.action,
        }
    }
}

pub open spec fn key_views(keys: Seq<PopupKey>) -> Seq<PopupKeyView> {
    keys.map_values(|key: PopupKey| key@)
}

/// An entry for a character key without modifiers.
pub open spec fn plain_entry(c: char, description: Seq<char>, action: Action) -> PopupKeyView {
    PopupKeyView {
        modifiers: KeyModifiers { bits: key::NONE },
        code: KeyCode::Char(c),
        description,
        action,
    }
}

impl PopupKey {
    /// An entry for a character key without modifiers.
    pub fn plain(c: char, description: &'static str, action: Action) -> (r: Self)
        ensures
            r@ == plain_entry(c, description@, action),
    {
        PopupKey {
            modifiers: KeyModifiers { bits: key::NONE },
            code: KeyCode::Char(c),
            description,
            action,
        }
    }
}

/// The action of the first entry for the given key.
pub open spec fn action_for_key(keys: Seq<PopupKeyView>, pressed: KeyEvent) -> Option<Action>
    decreases keys.len(),
{
    if keys.len() == 0 {
        None
    } else if keys[0].modifiers == pressed.modifiers && keys[0].code == pressed.code {
        Some(keys[0].action)
    } else {
        action_for_key(keys.drop_first(), pressed)
    }
}

/// The action that an event asks a popup for: only a press of a key does.
pub open spec fn action_for_event(keys: Seq<PopupKeyView>, event: Event) -> Option<Action> {
    match event {
        Event::Key(pressed) => if pressed.kind == KeyEventKind::Press {
            action_for_key(keys, pressed)
        } else {
            None
        },
        Event::Other => None,
    }
}

pub struct KeysPopup {
    keys: Vec<PopupKey>,
}

impl View for KeysPopup {
    type V = Seq<PopupKeyView>;

    closed spec fn view(&self) -> Seq<PopupKeyView> {
        key_views(self.keys@)
    }
}

impl KeysPopup {
    pub fn new(keys: Vec<PopupKey>) -> (r: Self)
        ensures
            r@ == key_views(keys@),
    {
        Self { keys }
    }

    /// The action that the event asks for, if any.
    pub fn get_action(&self, event: Event) -> (r: Option<Action>)
        ensures
            r == action_for_event(self@, event),
    {
        let pressed = match event {
            Event::Key(pressed) => pressed,
            Event::Other => {
                return None;
            },
        };
        if pressed.kind != KeyEventKind::Press {
            return None;
        }
        let mut i: usize = 0;
        assert(self@.skip(0) =~= self@);
        while i < self.keys.len()
            invariant
                i <= self.keys@.len(),
                event == Event::Key(pressed),
                pressed.kind == KeyEventKind::Press,
                action_for_key(self@, pressed) == action_for_key(self@.skip(i as int), pressed),
            decreases self.keys@.len() - i,
        {
            let entry = &self.keys[i];
            assert(self@.skip(i as int)[0] == entry@);
            if entry.modifiers == pressed.modifiers && entry.code == pressed.code {
                return Some(entry.action);
            }
            assert(self@.skip(i as int).drop_first() =~= self@.skip(i + 1));
            i = i + 1;
        }
        None
    }
}

/// The lines with the keys of the entries.
pub open spec fn key_lines(entries: Seq<PopupKeyView>) -> Seq<Seq<SpanView>> {
    entries.map_values(
        |entry: PopupKeyView|
            seq![
                content::styled(
                    key_name::full_name(entry.modifiers, entry.code),
                    Style::plain().bold().fg(Color::Black),
                ),
            ],
    )
}

/// The lines with the descriptions of the entries.
pub open spec fn description_lines(entries: Seq<PopupKeyView>) -> Seq<Seq<SpanView>> {
    entries.map_values(|entry: PopupKeyView| seq![content::raw(entry.description)])
}

/// Where the parts of a popup go.
#[derive(Debug, Clone, Copy, PartialEq, Eq, Structural)]
pub struct PopupAreas {
    pub keys: Rect,
    pub descriptions: Rect,
}

/// The height of a popup.
pub open spec fn popup_height(entries: Seq<PopupKeyView>) -> Seq<Constraint> {
    seq![Constraint::Length(entries.len() as u16)]
}

/// The widths of the parts of a popup.
pub open spec fn popup_widths(entries: Seq<PopupKeyView>) -> Seq<Constraint> {
    seq![
        Constraint::Length(content::width_of(key_lines(entries))),
        Constraint::Length(content::width_of(description_lines(entries))),
    ]
}

/// Whether the parts are placed in the middle of the area, side by side, given the row that they
/// share.
pub open spec fn are_placed_in(
    entries: Seq<PopupKeyView>,
    area: Rect,
    row: Rect,
    areas: PopupAreas,
) -> bool {
    &&& layout::are_parts(
        Direction::Vertical,
        popup_height(entries),
        0,
        Flex::Center,
        area,
        seq![row],
    )
    &&& layout::are_parts(
        Direction::Horizontal,
        popup_widths(entries),
        2,
        Flex::Center,
        row,
        seq![areas.keys, areas.descriptions],
    )
}

/// Whether the parts are placed in the middle of the area, side by side.
pub open spec fn is_placed(entries: Seq<PopupKeyView>, area: Rect, areas: PopupAreas) -> bool {
    exists|row: Rect| are_placed_in(entries, area, row, areas)
}

/// The parts of a popup lie in its area, in the same rows. The box around them may stick out by one
/// cell on each side.
pub proof fn law_popup_keeps_to_its_area(
    entries: Seq<PopupKeyView>,
    area: Rect,
    areas: PopupAreas,
)
    requires
        is_placed(entries, area, areas),
    ensures
        areas.keys.is_inside(area),
        areas.descriptions.is_inside(area),
        areas.inner().is_inside(area),
        areas.keys.y == areas.descriptions.y && areas.keys.height == areas.descriptions.height,
{
    let row = choose|row: Rect| are_placed_in(entries, area, row, areas);
    let parts = seq![areas.keys, areas.descriptions];
    assert(seq![row][0] == row);
    assert(parts[0] == areas.keys && parts[1] == areas.descriptions);
}

impl PopupAreas {
    /// The area of both parts.
    pub open spec fn inner(self) -> Rect {
        self.keys.united(self.descriptions)
    }
}

/// Whether the area has room for the popup and the box around it.
pub open spec fn has_room(entries: Seq<PopupKeyView>, area: Rect) -> bool {
    &&& content::width_of(key_lines(entries)) + content::width_of(description_lines(entries)) + 4
        <= layout::extent(Direction::Horizontal, area)
    &&& entries.len() <= u16::MAX
    &&& entries.len() + 2 <= layout::extent(Direction::Vertical, area)
}

/// Where the area has room for it, a popup is in its middle: the keys, two columns, and the
/// descriptions, as large as their texts, with a box around them that lies in the area.
pub proof fn law_popup_has_its_size(entries: Seq<PopupKeyView>, area: Rect, areas: PopupAreas)
    requires
        is_placed(entries, area, areas),
        has_room(entries, area),
    ensures
        ({
            let keys_width = content::width_of(key_lines(entries));
            let descriptions_width = content::width_of(description_lines(entries));
            &&& areas.keys.width == keys_width
            &&& areas.descriptions.width == descriptions_width
            &&& areas.keys.height == entries.len() == areas.descriptions.height
            &&& areas.descriptions.x == areas.keys.x + keys_width + 2
            &&& areas.keys.x - area.x == (layout::extent(Direction::Horizontal, area) - keys_width
                - 2 - descriptions_width + 1) / 2
            &&& areas.keys.y - area.y == (layout::extent(Direction::Vertical, area) - entries.len()
                + 1) / 2
            &&& areas.inner().can_grow()
            &&& areas.inner().grown().is_inside(area)
        }),
{
    let row = choose|row: Rect| are_placed_in(entries, area, row, areas);
    let height = entries.len() as u16;
    let keys_width = content::width_of(key_lines(entries));
    let descriptions_width = content::width_of(description_lines(entries));
    layout::lemma_one_length(height);
    layout::lemma_two_lengths(keys_width, descriptions_width);
    let rows = seq![row];
    let parts = seq![areas.keys, areas.descriptions];
    let heights = popup_height(entries);
    let widths = popup_widths(entries);
    assert(heights[0] == Constraint::Length(height));
    assert(layout::lengths_fit(Direction::Vertical, heights, 0, Flex::Center, area));
    assert(rows[0] == row);
    assert(row.height == height);
    assert(layout::lengths_fit(Direction::Horizontal, widths, 2, Flex::Center, row));
    assert(parts[0] == areas.keys && parts[1] == areas.descriptions);
    assert(widths[0] == Constraint::Length(keys_width));
    assert(widths[1] == Constraint::Length(descriptions_width));
}

/// What a popup draws: a box around its parts, the keys to the right of their part, and the
/// descriptions.
pub open spec fn popup_draws(entries: Seq<PopupKeyView>, areas: PopupAreas) -> Seq<DrawView> {
    let whole = areas.inner().grown();
    seq![
        DrawView::Clear { area: whole },
        DrawView::Fill { area: whole, style: Style::plain().bg(Color::LightCyan) },
        DrawView::Text {
            area: areas.keys,
            text: content::plain_text(key_lines(entries)),
            alignment: Alignment::Right,
        },
        DrawView::Text {
            area: areas.descriptions,
            text: content::plain_text(description_lines(entries)),
            alignment: Alignment::Left,
        },
    ]
}

impl KeysPopup {
    fn keys_text(&self) -> (r: Text)
        ensures
            r@ == content::plain_text(key_lines(self@)),
    {
        let key_style = Style::plain().bold().fg(Color::Black);
        let mut lines: Vec<Line> = Vec::new();
        let mut i: usize = 0;
        while i < self.keys.len()
            invariant
                i <= self.keys@.len(),
                lines@.len() == i,
                key_style == Style::plain().bold().fg(Color::Black),
                forall|j: int| 0 <= j < i ==> (#[trigger] lines@[j])@ == key_lines(self@)[j],
            decreases self.keys@.len() - i,
        {
            let entry = &self.keys[i];
            let name = key_name::format_key_event(entry.modifiers, entry.code);
            lines.push(Line::of(Span::styled(name.as_str(), key_style)));
            assert(self@[i as int] == entry@);
            i = i + 1;
        }
        assert(content::line_views(lines@) =~= key_lines(self@));
        Text::of(lines)
    }

    fn descriptions_text(&self) -> (r: Text)
        ensures
            r@ == content::plain_text(description_lines(self@)),
    {
        let mut lines: Vec<Line> = Vec::new();
        let mut i: usize = 0;
        while i < self.keys.len()
            invariant
                i <= self.keys@.len(),
                lines@.len() == i,
                forall|j: int|
                    0 <= j < i ==> (#[trigger] lines@[j])@ == description_lines(self@)[j],
            decreases self.keys@.len() - i,
        {
            let entry = &self.keys[i];
            lines.push(Line::of(Span::raw(entry.description)));
            assert(self@[i as int] == entry@);
            i = i + 1;
        }
        assert(content::line_views(lines@) =~= description_lines(self@));
        Text::of(lines)
    }

    /// Finds the places of the parts.
    pub(crate) fn place(&self, area: Rect) -> (areas: PopupAreas)
        ensures
            is_placed(self@, area, areas),
    {
        let height = vec![Constraint::Length(self.keys.len() as u16)];
        let keys_width = content::text_width(&self.keys_text()) as u16;
        let descriptions_width = content::text_width(&self.descriptions_text()) as u16;
        let widths = vec![Constraint::Length(keys_width), Constraint::Length(descriptions_width)];
        let rows = layout::divide(Direction::Vertical, &height, 0, Flex::Center, area);
        let parts = layout::divide(Direction::Horizontal, &widths, 2, Flex::Center, rows[0]);
        let areas = PopupAreas { keys: parts[0], descriptions: parts[1] };
        proof {
            assert(height@ =~= popup_height(self@));
            assert(widths@ =~= popup_widths(self@));
            assert(rows@ =~= seq![rows@[0]]);
            assert(parts@ =~= seq![areas.keys, areas.descriptions]);
            assert(are_placed_in(self@, area, rows@[0], areas));
        }
        areas
    }

    /// Draws the popup with its parts at the given places. There has to be room for a box around
    /// them.
    pub fn draw(&self, f: &mut Frame, areas: PopupAreas)
        requires
            areas.inner().can_grow(),
        ensures
            final(f)@ == old(f)@.with(popup_draws(self@, areas)),
    {
        let ghost before = f@;
        let inner = areas.keys.union(areas.descriptions);
        if let Some(whole) = inner.grow() {
            f.draw(Draw::Clear { area: whole });
            f.draw(Draw::Fill { area: whole, style: Style::plain().bg(Color::LightCyan) });
            f.draw(
                Draw::Text {
                    area: areas.keys,
                    text: self.keys_text(),
                    alignment: Alignment::Right,
                },
            );
            f.draw(
                Draw::Text {
                    area: areas.descriptions,
                    text: self.descriptions_text(),
                    alignment: Alignment::Left,
                },
            );
            assert(f@.draws =~= before.draws + popup_draws(self@, areas));
        }
    }

    /// Draws the popup in the middle of the area. Draws nothing, and says so, where there is no
    /// room for a box around it.
    pub fn render(&self, f: &mut Frame, area: Rect) -> (drawn: bool)
        ensures
            exists|areas: PopupAreas|
                {
                    &&& #[trigger] is_placed(self@, area, areas)
                    &&& drawn == areas.inner().can_grow()
                    &&& has_room(self@, area) ==> drawn
                    &&& final(f)@ == (if drawn {
                        old(f)@.with(popup_draws(self@, areas))
                    } else {
                        old(f)@
                    })
                },
    {
        let areas = self.place(area);
        proof {
            if has_room(self@, area) {
                law_popup_has_its_size(self@, area, areas);
            }
        }
        if areas.keys.union(areas.descriptions).grow().is_some() {
            self.draw(f, areas);
            true
        } else {
            false
        }
    }
}

} // verus!
