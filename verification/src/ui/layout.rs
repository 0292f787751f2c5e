//! Division of areas.

use crate::ui::geometry::Rect;
use ratatui::layout::Constraint::{Fill, Length, Min, Percentage};
use ratatui::layout::Direction::{Horizontal, Vertical};
use ratatui::layout::Flex::{Center, Start};
use ratatui::layout::{Layout, Rect as TuiRect};
use vstd::prelude::*;

verus! {

/// How large a part of an area is to be.
#[derive(Debug, Clone, Copy, PartialEq, Eq, Structural)]
pub enum Constraint {
    Length(u16),
    Min(u16),
    Percentage(u16),
    Fill(u16),
}

#[derive(Debug, Clone, Copy, PartialEq, Eq, Structural)]
pub enum Direction {
    Horizontal,
    Vertical,
}

/// Where the parts go if they do not fill the area.
#[derive(Debug, Clone, Copy, PartialEq, Eq, Structural)]
pub enum Flex {
    Start,
    Center,
}

/// Whether `parts` is a division of the area that `ratatui::layout::Layout` gives. There may be
/// several of them for the same request.
pub uninterp spec fn divides(
    direction: Direction,
    constraints: Seq<Constraint>,
    spacing: u16,
    flex: Flex,
    area: Rect,
    parts: Seq<Rect>,
) -> bool;

/// Whether a part lies in the area along the direction of the division, and spans the area across
/// it.
pub open spec fn lies_in(direction: Direction, area: Rect, part: Rect) -> bool {
    match direction {
        Direction::Horizontal => {
            &&& part.y == area.y
            &&& part.height == area.height
            &&& area.x <= part.x
            &&& part.x + part.width <= area.right_edge()
        },
        Direction::Vertical => {
            &&& part.x == area.x
            &&& part.width == area.width
            &&& area.y <= part.y
            &&& part.y + part.height <= area.bottom_edge()
        },
    }
}

/// The number of cells of an area along a direction.
pub open spec fn extent(direction: Direction, area: Rect) -> int {
    match direction {
        Direction::Horizontal => area.right_edge() - area.x,
        Direction::Vertical => area.bottom_edge() - area.y,
    }
}

/// Where a part starts along a direction.
pub open spec fn start_of(direction: Direction, part: Rect) -> int {
    match direction {
        Direction::Horizontal => part.x as int,
        Direction::Vertical => part.y as int,
    }
}

/// The size of a part along a direction.
pub open spec fn size_of(direction: Direction, part: Rect) -> int {
    match direction {
        Direction::Horizontal => part.width as int,
        Direction::Vertical => part.height as int,
    }
}

/// The sum of the lengths that are asked for.
pub open spec fn total_length(constraints: Seq<Constraint>) -> int
    decreases constraints.len(),
{
    if constraints.len() == 0 {
        0
    } else {
        total_length(constraints.drop_last()) + match constraints.last() {
            Constraint::Length(n) => n as int,
            _ => 0,
        }
    }
}

/// The number of parts that are to fill what the others leave.
pub open spec fn fill_count(constraints: Seq<Constraint>) -> nat
    decreases constraints.len(),
{
    if constraints.len() == 0 {
        0
    } else {
        fill_count(constraints.drop_last()) + match constraints.last() {
            Constraint::Fill(_) => 1nat,
            _ => 0,
        }
    }
}

/// Whether all lengths that are asked for fit into the area, with the space between the parts. At
/// most two other parts share what is left, and these only where parts come from the start on.
pub open spec fn lengths_fit(
    direction: Direction,
    constraints: Seq<Constraint>,
    spacing: u16,
    flex: Flex,
    area: Rect,
) -> bool {
    &&& forall|i: int|
        0 <= i < constraints.len() ==> (#[trigger] constraints[i]) is Length || constraints[i]
            == Constraint::Fill(1)
    &&& fill_count(constraints) == 0 || (fill_count(constraints) <= 2 && flex is Start)
    &&& spacing <= i16::MAX
    &&& total_length(constraints) + spacing * (constraints.len() - 1) <= extent(direction, area)
}

/// Whether each part that is asked for by its length has that length.
pub open spec fn has_lengths(
    direction: Direction,
    constraints: Seq<Constraint>,
    parts: Seq<Rect>,
) -> bool {
    forall|i: int|
        0 <= i < constraints.len() ==> match #[trigger] constraints[i] {
            Constraint::Length(n) => size_of(direction, parts[i]) == n,
            _ => true,
        }
}

/// The number of cells in front of the first part, if all parts are asked for by their lengths and
/// fit. In the middle, an odd cell comes first.
pub open spec fn margin(
    direction: Direction,
    constraints: Seq<Constraint>,
    spacing: u16,
    flex: Flex,
    area: Rect,
) -> int {
    match flex {
        Flex::Start => 0,
        Flex::Center => (extent(direction, area) - total_length(constraints) - spacing * (
        constraints.len() - 1) + 1) / 2,
    }
}

/// Whether the parts follow one another with just the space between them, from the given start on.
pub open spec fn is_row(
    direction: Direction,
    constraints: Seq<Constraint>,
    spacing: u16,
    start: int,
    parts: Seq<Rect>,
) -> bool {
    forall|i: int|
        0 <= i < parts.len() ==> start_of(direction, #[trigger] parts[i]) == start + total_length(
            constraints.take(i),
        ) + spacing * i
}

/// Whether the parts have the places and the lengths that are asked for, where these fit.
pub open spec fn are_as_asked(
    direction: Direction,
    constraints: Seq<Constraint>,
    spacing: u16,
    flex: Flex,
    area: Rect,
    parts: Seq<Rect>,
) -> bool {
    lengths_fit(direction, constraints, spacing, flex, area) ==> {
        &&& has_lengths(direction, constraints, parts)
        &&& fill_count(constraints) == 0 ==> is_row(
            direction,
            constraints,
            spacing,
            start_of(direction, area) + margin(direction, constraints, spacing, flex, area),
            parts,
        )
    }
}

/// Whether the parts are a division of the area, each of them inside it, and with the lengths that
/// are asked for where these fit.
pub open spec fn are_parts(
    direction: Direction,
    constraints: Seq<Constraint>,
    spacing: u16,
    flex: Flex,
    area: Rect,
    parts: Seq<Rect>,
) -> bool {
    &&& divides(direction, constraints, spacing, flex, area, parts)
    &&& parts.len() == constraints.len()
    &&& are_as_asked(direction, constraints, spacing, flex, area, parts)
    &&& forall|i: int| 0 <= i < parts.len() ==> lies_in(direction, area, #[trigger] parts[i])
}

/// `ratatui::layout::Layout::split` divides an area into one part for each constraint. Each part
/// lies in the area, and spans it across the direction. Lengths that fit into the area together are
/// kept; parts that are all asked for by their lengths come one behind the other, at the start or
/// in the middle of the area. Where parts lie otherwise is left unsaid: a solver of weighted
/// constraints finds it, and how it decides between equally good places may differ from one run of
/// the program to the next.
#[verifier::external_body]
pub(crate) fn divide(
    direction: Direction,
    constraints: &Vec<Constraint>,
    spacing: u16,
    flex: Flex,
    area: Rect,
) -> (parts: Vec<Rect>)
    ensures
        divides(direction, constraints@, spacing, flex, area, parts@),
        parts@.len() == constraints@.len(),
        are_as_asked(direction, constraints@, spacing, flex, area, parts@),
        forall|i: int|
            0 <= i < parts@.len() ==> lies_in(direction, area, #[trigger] parts@[i]),
{
    let axis = match direction { Direction::Horizontal => Horizontal, Direction::Vertical => Vertical };
    let place = match flex { Flex::Start => Start, Flex::Center => Center };
    let sizes = constraints.iter().map(|constraint| match *constraint {
        Constraint::Length(n) => Length(n),
        Constraint::Min(n) => Min(n),
        Constraint::Percentage(n) => Percentage(n),
        Constraint::Fill(n) => Fill(n),
    });
    let Rect { x, y, width, height } = area;
    let layout = Layout::new(axis, sizes).spacing(spacing).flex(place);
    let parts = layout.split(TuiRect { x, y, width, height });
    parts.iter().map(|&TuiRect { x, y, width, height }| Rect { x, y, width, height }).collect()
}

/// What one length adds up to.
pub(crate) proof fn lemma_one_length(a: u16)
    ensures
        ({
            let all = seq![Constraint::Length(a)];
            &&& total_length(all) == a
            &&& fill_count(all) == 0
            &&& total_length(all.take(0)) == 0
        }),
{
    reveal_with_fuel(total_length, 2);
    reveal_with_fuel(fill_count, 2);
    let all = seq![Constraint::Length(a)];
    assert(all.drop_last() =~= Seq::empty());
    assert(all.take(0) =~= Seq::empty());
}

/// What two lengths add up to.
pub(crate) proof fn lemma_two_lengths(a: u16, b: u16)
    ensures
        ({
            let all = seq![Constraint::Length(a), Constraint::Length(b)];
            &&& total_length(all) == a + b
            &&& fill_count(all) == 0
            &&& total_length(all.take(0)) == 0
            &&& total_length(all.take(1)) == a
        }),
{
    lemma_one_length(a);
    let all = seq![Constraint::Length(a), Constraint::Length(b)];
    assert(all.drop_last() =~= seq![Constraint::Length(a)]);
    assert(all.take(1) =~= seq![Constraint::Length(a)]);
    assert(all.take(0) =~= Seq::empty());
}

/// What three lengths add up to.
pub(crate) proof fn lemma_three_lengths(a: u16, b: u16, c: u16)
    ensures
        ({
            let all = seq![
                Constraint::Length(a),
                Constraint::Length(b),
                Constraint::Length(c),
            ];
            &&& total_length(all) == a + b + c
            &&& fill_count(all) == 0
        }),
{
    lemma_two_lengths(a, b);
    let all = seq![Constraint::Length(a), Constraint::Length(b), Constraint::Length(c)];
    assert(all.drop_last() =~= seq![Constraint::Length(a), Constraint::Length(b)]);
}

} // verus!
