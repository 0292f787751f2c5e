//! Rendering of the whole screen.

use crate::app::{App, AppView};
use crate::pipeline::StageExecutionView;
use crate::ui::binary;
use crate::ui::content::TextView;
use crate::ui::frame::{Alignment, Draw, DrawView, Frame, FrameView};
use crate::ui::geometry::{Position, Rect, Size};
use crate::ui::layout;
use crate::ui::layout::{Constraint, Direction, Flex};
use crate::ui::popup;
use crate::ui::popup::PopupAreas;
use crate::ui::stage;
use crate::ui::stage::StageAreas;
use crate::ui::style::{Color, Style};
use crate::ui::utils;
use crate::ui::utils::HelpAreas;
use vstd::prelude::*;

verus! {

/// Where everything on the screen goes.
#[derive(Debug)]
pub struct ScreenAreas {
    pub help: Option<HelpAreas>,
    pub output: Option<Rect>,
    pub eoutput: Option<Rect>,
    pub stages: Vec<StageAreas>,
    pub popup: Option<PopupAreas>,
}

/// The view of the places on the screen.
pub struct ScreenAreasView {
    pub help: Option<HelpAreas>,
    pub output: Option<Rect>,
    pub eoutput: Option<Rect>,
    pub stages: Seq<StageAreas>,
    pub popup: Option<PopupAreas>,
}

impl View for ScreenAreas {
    type V = ScreenAreasView;

    open spec fn view(&self) -> ScreenAreasView {
        ScreenAreasView {
            help: self.help,
            output: self.output,
            eoutput: self.eoutput,
            stages: self.stages@,
            popup: self.popup,
        }
    }
}

/// An area that gets what the others leave, if the condition holds.
pub open spec fn fill_if(condition: bool) -> Seq<Constraint> {
    if condition {
        seq![Constraint::Fill(1)]
    } else {
        Seq::empty()
    }
}

/// Lines for a number of stages, one each.
pub open spec fn stage_heights(count: nat) -> Seq<Constraint> {
    Seq::new(count, |i: int| Constraint::Length(1))
}

pub open spec fn one_if(condition: bool) -> int {
    if condition {
        1
    } else {
        0
    }
}

impl AppView {
    /// The execution of the stage at the given index, if it has one.
    pub open spec fn execution_of(self, i: int) -> Option<StageExecutionView> {
        let id = self.pipeline[i].id;
        if self.execution.index.dom().contains(id) {
            Some(self.execution.pipeline[self.execution.index[id] as int])
        } else {
            None
        }
    }

    /// Whether error output is shown: whenever there is any.
    pub open spec fn shows_eoutput(self) -> bool {
        self.execution_of(self.shown as int) matches Some(exec) && exec.eoutput.len() > 0
    }

    /// Whether output is shown: whenever there is any, or there is no error output either.
    pub open spec fn shows_output(self) -> bool {
        self.execution_of(self.shown as int) matches Some(exec) && (exec.output.len() > 0
            || exec.eoutput.len() == 0)
    }

    /// Whether the help is shown: when there is nothing else to show.
    pub open spec fn shows_help(self) -> bool {
        !self.shows_output() && !self.shows_eoutput()
    }

    /// The heights of the parts of the screen. Each stage takes one line, and the output comes
    /// right behind the shown stage.
    pub open spec fn screen_heights(self) -> Seq<Constraint> {
        if self.shows_help() {
            fill_if(true) + stage_heights(self.pipeline.len())
        } else {
            stage_heights((self.shown + 1) as nat) + fill_if(self.shows_output()) + fill_if(
                self.shows_eoutput(),
            ) + stage_heights((self.pipeline.len() - self.shown - 1) as nat)
        }
    }

    /// The part of the screen that the stage at `i` takes.
    pub open spec fn part_of_stage(self, i: int) -> int {
        if self.shows_help() {
            i + 1
        } else if i <= self.shown {
            i
        } else {
            i + one_if(self.shows_output()) + one_if(self.shows_eoutput())
        }
    }

    /// Whether everything is placed as it should be, given the parts of the screen.
    pub open spec fn are_placed(
        self,
        screen: Rect,
        parts: Seq<Rect>,
        areas: ScreenAreasView,
    ) -> bool {
        &&& if self.shows_help() && self.popup is None {
            areas.help matches Some(help) && utils::is_placed(parts[0], help)
        } else {
            areas.help is None
        }
        &&& areas.output == (if self.shows_output() {
            Some(parts[self.shown + 1])
        } else {
            None
        })
        &&& areas.eoutput == (if self.shows_eoutput() {
            Some(parts[self.shown + 1 + one_if(self.shows_output())])
        } else {
            None
        })
        &&& areas.stages.len() == self.pipeline.len()
        &&& forall|i: int|
            0 <= i < self.pipeline.len() ==> stage::is_placed(
                parts[self.part_of_stage(i)],
                #[trigger] areas.stages[i],
            )
        &&& match self.popup {
            Some(entries) => areas.popup matches Some(popup) && popup::is_placed(
                entries,
                screen,
                popup,
            ),
            None => areas.popup is None,
        }
    }

    /// Whether everything is placed as it should be.
    pub open spec fn is_arranged(self, screen: Rect, areas: ScreenAreasView) -> bool {
        exists|parts: Seq<Rect>|
            {
                &&& #[trigger] layout::are_parts(
                    Direction::Vertical,
                    self.screen_heights(),
                    0,
                    Flex::Start,
                    screen,
                    parts,
                )
                &&& self.are_placed(screen, parts, areas)
            }
    }

    /// The execution whose output is shown.
    pub open spec fn shown_stage_execution(self) -> StageExecutionView {
        self.execution_of(self.shown as int)->0
    }

    /// What is drawn for the first `n` stages.
    pub open spec fn stage_draws(self, areas: Seq<StageAreas>, n: int) -> Seq<DrawView>
        decreases n,
    {
        if n <= 0 {
            Seq::empty()
        } else {
            self.stage_draws(areas, n - 1) + stage::draws_of(
                self.pipeline[n - 1],
                self.execution_of(n - 1),
                areas[n - 1],
                n - 1 == self.focused,
                self.syntax_highlight,
            )
        }
    }

    /// Whether the stage at `i` can be drawn.
    pub open spec fn can_draw_stage(self, areas: Seq<StageAreas>, i: int) -> bool {
        stage::is_drawable(
            self.pipeline[i],
            self.execution_of(i),
            areas[i],
            self.syntax_highlight,
        )
    }

    /// Whether everything can be drawn at the given places.
    pub open spec fn can_draw(self, areas: ScreenAreasView) -> bool {
        &&& areas.output matches Some(area) ==> has_room(
            self.shown_stage_execution().output,
            area,
        )
        &&& areas.eoutput matches Some(area) ==> has_room(
            self.shown_stage_execution().eoutput,
            area,
        )
        &&& forall|i: int|
            0 <= i < self.pipeline.len() ==> #[trigger] self.can_draw_stage(areas.stages, i)
        &&& areas.popup matches Some(popup) ==> self.popup is Some ==> popup.inner().can_grow()
    }

    /// The place of the cursor: in the focused stage.
    pub open spec fn cursor(self, areas: Seq<StageAreas>) -> Position {
        let focused = self.pipeline[self.focused as int];
        let places = areas[self.focused as int];
        stage::cursor_position(places, stage::scroll_of(focused, places), stage::cursor_of(focused))
    }

    /// All that is drawn at the given places.
    pub open spec fn screen(self, areas: ScreenAreasView) -> Seq<DrawView> {
        (match areas.help {
            Some(help) => utils::help_draws(help),
            None => Seq::empty(),
        }) + (match areas.output {
            Some(area) => output_draws(
                self.shown_stage_execution().output,
                area,
                Style::plain(),
            ),
            None => Seq::empty(),
        }) + (match areas.eoutput {
            Some(area) => output_draws(
                self.shown_stage_execution().eoutput,
                area,
                Style::plain().fg(Color::Red),
            ),
            None => Seq::empty(),
        }) + self.stage_draws(areas.stages, self.pipeline.len() as int) + (match (
            areas.popup,
            self.popup,
        ) {
            (Some(places), Some(entries)) => popup::popup_draws(entries, places),
            _ => Seq::empty(),
        })
    }
}

/// Whether there is room for output in an area.
pub open spec fn has_room(output: Seq<u8>, area: Rect) -> bool {
    binary::has_room(
        binary::graphemes_of(output),
        Size { width: area.width, height: area.height },
    )
}

/// What is drawn for output.
pub open spec fn output_draws(output: Seq<u8>, area: Rect, style: Style) -> Seq<DrawView> {
    let size = Size { width: area.width, height: area.height };
    seq![
        DrawView::Text {
            area,
            text: TextView { lines: binary::rendered(binary::graphemes_of(output), size), style },
            alignment: Alignment::Left,
        },
    ]
}

/// Draws output, where there is room for it.
fn draw_output(f: &mut Frame, output: &[u8], area: Rect, style: Style) -> (drawn: bool)
    ensures
        drawn == has_room(output@, area),
        drawn ==> final(f)@ == old(f)@.with(output_draws(output@, area, style)),
{
    match binary::render_bytes(output, area, style) {
        Some(text) => {
            f.draw(Draw::Text { area, text, alignment: Alignment::Left });
            true
        },
        None => false,
    }
}

impl App {
    /// Whether output and error output are shown.
    fn shown_outputs(&self) -> (r: (bool, bool))
        requires
            self@.running(),
        ensures
            r.0 == self@.shows_output(),
            r.1 == self@.shows_eoutput(),
    {
        let shown_stage = &self.pipeline[self.shown_stage_index];
        match self.execution.get_stage(shown_stage.id) {
            Some(exec) => {
                // Definitely show stderr if there is anything to show.
                let show_eoutput = exec.eoutput.len() > 0;
                // Show stdout if there is anything to show or if stderr is empty.
                (exec.output.len() > 0 || !show_eoutput, show_eoutput)
            },
            None => (false, false),
        }
    }

    /// The heights of the parts of the screen.
    fn screen_heights(&self, show_output: bool, show_eoutput: bool) -> (r: Vec<Constraint>)
        requires
            self@.running(),
            show_output == self@.shows_output(),
            show_eoutput == self@.shows_eoutput(),
        ensures
            r@ == self@.screen_heights(),
    {
        let mut heights: Vec<Constraint> = Vec::new();
        if !show_output && !show_eoutput {
            // Show help when there is no output to show.
            heights.push(Constraint::Fill(1));
        }
        let mut i: usize = 0;
        while i < self.pipeline.len()
            invariant
                self@.running(),
                i <= self.pipeline@.len(),
                show_output == self@.shows_output(),
                show_eoutput == self@.shows_eoutput(),
                heights@ == (if self@.shows_help() {
                    fill_if(true) + stage_heights(i as nat)
                } else if i <= self@.shown {
                    stage_heights(i as nat)
                } else {
                    stage_heights((self@.shown + 1) as nat) + fill_if(show_output) + fill_if(
                        show_eoutput,
                    ) + stage_heights((i - self@.shown - 1) as nat)
                }),
            decreases self.pipeline@.len() - i,
        {
            let ghost before = heights@;
            heights.push(Constraint::Length(1));
            proof {
                if !self@.shows_help() && i > self@.shown {
                    let count = (i - self@.shown - 1) as nat;
                    assert(stage_heights(count + 1) =~= stage_heights(count).push(
                        Constraint::Length(1),
                    ));
                } else {
                    assert(stage_heights((i + 1) as nat) =~= stage_heights(i as nat).push(
                        Constraint::Length(1),
                    ));
                }
            }
            if i == self.shown_stage_index {
                if show_output {
                    heights.push(Constraint::Fill(1));
                }
                if show_eoutput {
                    heights.push(Constraint::Fill(1));
                }
                assert(stage_heights(0) =~= Seq::empty());
            }
            i = i + 1;
            assert(heights@ =~= if self@.shows_help() {
                fill_if(true) + stage_heights(i as nat)
            } else if i <= self@.shown {
                stage_heights(i as nat)
            } else {
                stage_heights((self@.shown + 1) as nat) + fill_if(show_output) + fill_if(
                    show_eoutput,
                ) + stage_heights((i - self@.shown - 1) as nat)
            });
        }
        heights
    }

    /// Finds the places of everything, given the parts of the screen.
    fn place_in(
        &self,
        screen: Rect,
        parts: &Vec<Rect>,
        show_output: bool,
        show_eoutput: bool,
    ) -> (areas: ScreenAreas)
        requires
            self@.running(),
            show_output == self@.shows_output(),
            show_eoutput == self@.shows_eoutput(),
            parts@.len() == self@.screen_heights().len(),
        ensures
            self@.are_placed(screen, parts@, areas@),
    {
        let show_help = !show_output && !show_eoutput;
        let help = if show_help && self.popup.is_none() {
            Some(utils::place(parts[0]))
        } else {
            None
        };
        let count: usize = self.pipeline.len();
        let total: usize = parts.len();
        // The part that comes next.
        let mut next: usize = if show_help {
            1
        } else {
            0
        };
        let mut output = None;
        let mut eoutput = None;
        let mut stages: Vec<StageAreas> = Vec::new();
        let mut i: usize = 0;
        while i < count
            invariant
                self@.running(),
                i <= count == self@.pipeline.len(),
                show_output == self@.shows_output(),
                show_eoutput == self@.shows_eoutput(),
                show_help == self@.shows_help(),
                total == parts@.len() == self@.screen_heights().len(),
                next == (if i == 0 {
                    one_if(show_help)
                } else {
                    self@.part_of_stage(i - 1) + 1 + (if i - 1 == self@.shown {
                        one_if(show_output) + one_if(show_eoutput)
                    } else {
                        0
                    })
                }),
                stages@.len() == i,
                forall|j: int|
                    0 <= j < i ==> stage::is_placed(
                        parts@[self@.part_of_stage(j)],
                        #[trigger] stages@[j],
                    ),
                output == (if show_output && i > self@.shown {
                    Some(parts@[self@.shown + 1])
                } else {
                    None
                }),
                eoutput == (if show_eoutput && i > self@.shown {
                    Some(parts@[self@.shown + 1 + one_if(show_output)])
                } else {
                    None
                }),
            decreases count - i,
        {
            stages.push(stage::place(parts[next]));
            next = next + 1;
            if i == self.shown_stage_index {
                if show_output {
                    output = Some(parts[next]);
                    next = next + 1;
                }
                if show_eoutput {
                    eoutput = Some(parts[next]);
                    next = next + 1;
                }
            }
            i = i + 1;
        }
        let popup = match &self.popup {
            Some(popup) => Some(popup.place(screen)),
            None => None,
        };
        ScreenAreas { help, output, eoutput, stages, popup }
    }

    /// Finds the places of everything on the screen.
    pub fn arrange(&self, screen: Rect) -> (areas: ScreenAreas)
        requires
            self@.running(),
        ensures
            self@.is_arranged(screen, areas@),
    {
        let (show_output, show_eoutput) = self.shown_outputs();
        let heights = self.screen_heights(show_output, show_eoutput);
        let parts = layout::divide(Direction::Vertical, &heights, 0, Flex::Start, screen);
        assert(layout::are_parts(
            Direction::Vertical,
            self@.screen_heights(),
            0,
            Flex::Start,
            screen,
            parts@,
        ));
        self.place_in(screen, &parts, show_output, show_eoutput)
    }

    /// Draws the stages. Fails where one of them cannot be drawn.
    fn draw_stages(&self, f: &mut Frame, areas: &Vec<StageAreas>) -> (drawn: bool)
        requires
            self@.running(),
            areas@.len() == self@.pipeline.len(),
        ensures
            drawn == (forall|i: int|
                0 <= i < self@.pipeline.len() ==> #[trigger] self@.can_draw_stage(areas@, i)),
            drawn ==> final(f)@ == (FrameView {
                cursor: Some(self@.cursor(areas@)),
                ..old(f)@.with(self@.stage_draws(areas@, self@.pipeline.len() as int))
            }),
    {
        let ghost before = f@;
        let mut i: usize = 0;
        assert(f@.draws =~= before.draws + self@.stage_draws(areas@, 0));
        while i < self.pipeline.len()
            invariant
                self@.running(),
                areas@.len() == self@.pipeline.len(),
                i <= self@.pipeline.len(),
                forall|j: int| 0 <= j < i ==> #[trigger] self@.can_draw_stage(areas@, j),
                f@.area == before.area,
                f@.draws == before.draws + self@.stage_draws(areas@, i as int),
                f@.cursor == (if i > self@.focused {
                    Some(self@.cursor(areas@))
                } else {
                    before.cursor
                }),
            decreases self.pipeline@.len() - i,
        {
            let current = &self.pipeline[i];
            assert(self@.pipeline[i as int] == current@);
            let exec = self.execution.get_stage(current.id);
            let position = stage::render_stage(
                f,
                current,
                exec,
                areas[i],
                i == self.focused_stage,
                self.options.syntax_highlight,
            );
            match position {
                Some(position) => {
                    assert(self@.can_draw_stage(areas@, i as int));
                    if i == self.focused_stage {
                        f.set_cursor_position(position);
                    }
                },
                None => {
                    assert(!self@.can_draw_stage(areas@, i as int));
                    return false;
                },
            }
            i = i + 1;
            assert(f@.draws =~= before.draws + self@.stage_draws(areas@, i as int));
        }
        true
    }

    /// Draws the output that is shown. Fails where there is no room for it.
    fn draw_outputs(&self, f: &mut Frame, areas: &ScreenAreas) -> (drawn: bool)
        requires
            self@.running(),
            areas@.output is Some || areas@.eoutput is Some ==> self@.execution_of(
                self@.shown as int,
            ) is Some,
        ensures
            ({
                let exec = self@.shown_stage_execution();
                &&& drawn == {
                    &&& areas@.output matches Some(area) ==> has_room(exec.output, area)
                    &&& areas@.eoutput matches Some(area) ==> has_room(exec.eoutput, area)
                }
                &&& drawn ==> final(f)@ == old(f)@.with(
                    (match areas@.output {
                        Some(area) => output_draws(exec.output, area, Style::plain()),
                        None => Seq::empty(),
                    }) + (match areas@.eoutput {
                        Some(area) => output_draws(
                            exec.eoutput,
                            area,
                            Style::plain().fg(Color::Red),
                        ),
                        None => Seq::empty(),
                    }),
                )
            }),
    {
        let ghost before = f@;
        let exec = match self.execution.get_stage(self.pipeline[self.shown_stage_index].id) {
            Some(exec) => exec,
            None => {
                assert(f@.draws =~= before.draws + (Seq::<DrawView>::empty() + Seq::empty()));
                return true;
            },
        };
        if let Some(area) = areas.output {
            if !draw_output(f, exec.output.as_bytes(), area, Style::plain()) {
                return false;
            }
        }
        if let Some(area) = areas.eoutput {
            if !draw_output(f, exec.eoutput.as_bytes(), area, Style::plain().fg(Color::Red)) {
                return false;
            }
        }
        assert(f@.draws =~= before.draws + ((match areas@.output {
            Some(area) => output_draws(exec@.output, area, Style::plain()),
            None => Seq::empty(),
        }) + (match areas@.eoutput {
            Some(area) => output_draws(exec@.eoutput, area, Style::plain().fg(Color::Red)),
            None => Seq::empty(),
        })));
        true
    }

    /// Draws everything at the given places. Fails where something cannot be drawn.
    pub fn compose(&self, screen: Rect, areas: &ScreenAreas) -> (r: Option<Frame>)
        requires
            self@.running(),
            areas@.stages.len() == self@.pipeline.len(),
            areas@.output is Some || areas@.eoutput is Some ==> self@.execution_of(
                self@.shown as int,
            ) is Some,
        ensures
            if self@.can_draw(areas@) {
                r matches Some(f) && f@ == (FrameView {
                    area: screen,
                    draws: self@.screen(areas@),
                    cursor: Some(self@.cursor(areas@.stages)),
                })
            } else {
                r is None
            },
    {
        let mut f = Frame::new(screen);
        if let Some(help) = areas.help {
            utils::draw_help(&mut f, help);
        }
        if !self.draw_outputs(&mut f, areas) {
            return None;
        }
        if !self.draw_stages(&mut f, &areas.stages) {
            return None;
        }
        if let Some(popup) = &self.popup {
            if let Some(places) = areas.popup {
                if places.keys.union(places.descriptions).grow().is_none() {
                    return None;
                }
                popup.draw(&mut f, places);
            }
        }
        assert(f@.draws =~= self@.screen(areas@));
        Some(f)
    }

    /// Draws everything on a screen of the given area. Fails where the screen has no room for it, or
    /// a command that is to be highlighted cannot be.
    pub fn render(&self, screen: Rect) -> (r: Option<Frame>)
        requires
            self@.running(),
        ensures
            exists|areas: ScreenAreasView|
                {
                    &&& #[trigger] self@.is_arranged(screen, areas)
                    &&& if self@.can_draw(areas) {
                        r matches Some(f) && f@ == (FrameView {
                            area: screen,
                            draws: self@.screen(areas),
                            cursor: Some(self@.cursor(areas.stages)),
                        })
                    } else {
                        r is None
                    }
                },
    {
        let areas = self.arrange(screen);
        self.compose(screen, &areas)
    }
}

/// A stage that has an execution always shows something of it, and the help is shown just where the
/// shown stage has none.
pub proof fn law_help_is_shown_without_execution(state: AppView)
    ensures
        state.shows_help() <==> state.execution_of(state.shown as int) is None,
{
}

/// Each stage has a line of its own, in order. What is shown of an execution comes right behind the
/// shown stage, the output before the error output, and fills the rest of the screen.
pub proof fn law_each_stage_has_its_line(state: AppView, i: int)
    requires
        state.running(),
        0 <= i < state.pipeline.len(),
    ensures
        ({
            let heights = state.screen_heights();
            let part = state.part_of_stage(i);
            let behind = state.part_of_stage(state.shown as int) + 1;
            &&& 0 <= part < heights.len()
            &&& heights[part] == Constraint::Length(1)
            &&& i > 0 ==> state.part_of_stage(i - 1) < part
            &&& state.shows_output() ==> behind < heights.len() && heights[behind]
                == Constraint::Fill(1)
            &&& state.shows_eoutput() ==> behind + one_if(state.shows_output()) < heights.len()
                && heights[behind + one_if(state.shows_output())] == Constraint::Fill(1)
            &&& heights.len() == state.pipeline.len() + one_if(state.shows_help()) + one_if(
                state.shows_output(),
            ) + one_if(state.shows_eoutput())
        }),
{
}

/// Everything lies on the screen. Each stage takes a part of its own, and the cursor is in the row
/// of the focused one.
pub proof fn law_screen_is_kept(state: AppView, screen: Rect, areas: ScreenAreasView)
    requires
        state.running(),
        state.is_arranged(screen, areas),
    ensures
        areas.help matches Some(help) ==> help.introduction.is_inside(screen)
            && help.keys.is_inside(screen) && help.legend.is_inside(screen),
        areas.output matches Some(area) ==> area.is_inside(screen) && area.width == screen.width,
        areas.eoutput matches Some(area) ==> area.is_inside(screen) && area.width == screen.width,
        forall|i: int|
            0 <= i < state.pipeline.len() ==> {
                let places = #[trigger] areas.stages[i];
                &&& places.marker.is_inside(screen)
                &&& places.command.is_inside(screen)
                &&& places.status.is_inside(screen)
                &&& places.marker.y == places.command.y == places.status.y
            },
        areas.popup matches Some(popup) ==> popup.inner().is_inside(screen),
        state.cursor(areas.stages).y == areas.stages[state.focused as int].command.y,
{
    let parts = choose|parts: Seq<Rect>|
        {
            &&& #[trigger] layout::are_parts(
                Direction::Vertical,
                state.screen_heights(),
                0,
                Flex::Start,
                screen,
                parts,
            )
            &&& state.are_placed(screen, parts, areas)
        };
    law_each_stage_has_its_line(state, state.shown as int);
    if let Some(help) = areas.help {
        utils::law_help_keeps_to_its_area(parts[0], help);
        assert(layout::lies_in(Direction::Vertical, screen, parts[0]));
    }
    if let Some(popup) = areas.popup {
        popup::law_popup_keeps_to_its_area(state.popup->0, screen, popup);
    }
    assert forall|i: int| 0 <= i < state.pipeline.len() implies {
        let places = #[trigger] areas.stages[i];
        &&& places.marker.is_inside(screen)
        &&& places.command.is_inside(screen)
        &&& places.status.is_inside(screen)
        &&& places.marker.y == places.command.y == places.status.y
    } by {
        law_each_stage_has_its_line(state, i);
        let part = parts[state.part_of_stage(i)];
        assert(layout::lies_in(Direction::Vertical, screen, part));
        stage::law_stage_keeps_to_its_area(part, areas.stages[i], 0, 0);
    }
}

proof fn lemma_stage_heights(count: nat)
    ensures
        layout::total_length(stage_heights(count)) == count,
        layout::fill_count(stage_heights(count)) == 0,
    decreases count,
{
    if count > 0 {
        let fewer = (count - 1) as nat;
        assert(stage_heights(count).drop_last() =~= stage_heights(fewer));
        lemma_stage_heights(fewer);
    }
}

proof fn lemma_sums_add_up(a: Seq<Constraint>, b: Seq<Constraint>)
    ensures
        layout::total_length(a + b) == layout::total_length(a) + layout::total_length(b),
        layout::fill_count(a + b) == layout::fill_count(a) + layout::fill_count(b),
    decreases b.len(),
{
    if b.len() == 0 {
        assert(a + b =~= a);
    } else {
        assert((a + b).drop_last() =~= a + b.drop_last());
        lemma_sums_add_up(a, b.drop_last());
    }
}

proof fn lemma_fill(condition: bool)
    ensures
        layout::total_length(fill_if(condition)) == 0,
        layout::fill_count(fill_if(condition)) == one_if(condition),
{
    reveal_with_fuel(layout::total_length, 2);
    reveal_with_fuel(layout::fill_count, 2);
    if condition {
        assert(fill_if(condition).drop_last() =~= Seq::empty());
    }
}

proof fn lemma_screen_heights(state: AppView)
    requires
        state.running(),
    ensures
        layout::total_length(state.screen_heights()) == state.pipeline.len(),
        layout::fill_count(state.screen_heights()) <= 2,
        forall|i: int|
            0 <= i < state.screen_heights().len() ==> (#[trigger] state.screen_heights()[i])
                == Constraint::Length(1) || state.screen_heights()[i] == Constraint::Fill(1),
{
    let output = state.shows_output();
    let eoutput = state.shows_eoutput();
    lemma_fill(true);
    lemma_fill(output);
    lemma_fill(eoutput);
    if state.shows_help() {
        lemma_stage_heights(state.pipeline.len());
        lemma_sums_add_up(fill_if(true), stage_heights(state.pipeline.len()));
    } else {
        let above = stage_heights((state.shown + 1) as nat);
        let below = stage_heights((state.pipeline.len() - state.shown - 1) as nat);
        lemma_stage_heights((state.shown + 1) as nat);
        lemma_stage_heights((state.pipeline.len() - state.shown - 1) as nat);
        lemma_sums_add_up(above, fill_if(output));
        lemma_sums_add_up(above + fill_if(output), fill_if(eoutput));
        lemma_sums_add_up(above + fill_if(output) + fill_if(eoutput), below);
    }
}

/// On a screen that is high enough for all stages, each of them takes exactly one row.
pub proof fn law_each_stage_takes_one_row(
    state: AppView,
    screen: Rect,
    areas: ScreenAreasView,
    i: int,
)
    requires
        state.running(),
        state.is_arranged(screen, areas),
        state.pipeline.len() <= layout::extent(Direction::Vertical, screen),
        0 <= i < state.pipeline.len(),
    ensures
        areas.stages[i].marker.height == 1,
        areas.stages[i].command.height == 1,
        areas.stages[i].status.height == 1,
{
    let parts = choose|parts: Seq<Rect>|
        {
            &&& #[trigger] layout::are_parts(
                Direction::Vertical,
                state.screen_heights(),
                0,
                Flex::Start,
                screen,
                parts,
            )
            &&& state.are_placed(screen, parts, areas)
        };
    let part = state.part_of_stage(i);
    lemma_screen_heights(state);
    law_each_stage_has_its_line(state, i);
    assert(layout::lengths_fit(
        Direction::Vertical,
        state.screen_heights(),
        0,
        Flex::Start,
        screen,
    ));
    assert(state.screen_heights()[part] == Constraint::Length(1));
    assert(parts[part].height == 1);
    stage::law_stage_keeps_to_its_area(parts[part], areas.stages[i], 0, 0);
}

/// A popup can be drawn on every screen that has room for it and the box around it.
pub proof fn law_popup_can_be_drawn(state: AppView, screen: Rect, areas: ScreenAreasView)
    requires
        state.is_arranged(screen, areas),
        state.popup is Some,
        popup::has_room(state.popup->0, screen),
    ensures
        areas.popup matches Some(places) && places.inner().can_grow(),
{
    popup::law_popup_has_its_size(state.popup->0, screen, areas.popup->0);
}

} // verus!
