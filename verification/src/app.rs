//! The state of the application and its reactions.

use crate::bytes;
use crate::id_generator::IdGenerator;
use crate::input;
use crate::input::FieldKey;
use crate::options::{Options, PrintOnExit};
use crate::parser;
use crate::parser::ParseError;
use crate::pipeline;
use crate::pipeline::{Execution, ExecutionView, PendingExecution, PendingStage};
use crate::pipeline::{PendingStageView, Stage, StageExecutionView, StageView, StartPlan};
use crate::text;
use crate::ui::action::{Action, CopySource, QuitAction};
use crate::ui::key;
use crate::ui::key::{Event, KeyCode, KeyEvent};
use crate::ui::popup;
use crate::ui::popup::{KeysPopup, PopupKey, PopupKeyView};
use append_only_bytes::BytesSlice;
use vstd::prelude::*;
use vstd::utf8::*;

verus! {

/// What the program is left with.
pub enum QuitResult {
    Success,
    Cancel,
    /// The commands of the pipeline are to be printed.
    Pipeline(Vec<String>),
    /// The output is to be printed.
    Output(BytesSlice),
}

/// The view of a result.
pub enum QuitView {
    Success,
    Cancel,
    Pipeline(Seq<Seq<char>>),
    Output(Seq<u8>),
}

impl View for QuitResult {
    type V = QuitView;

    open spec fn view(&self) -> QuitView {
        match self {
            QuitResult::Success => QuitView::Success,
            QuitResult::Cancel => QuitView::Cancel,
            QuitResult::Pipeline(commands) => QuitView::Pipeline(text::string_views(commands@)),
            QuitResult::Output(output) => QuitView::Output(bytes::covered(*output)),
        }
    }
}

/// Which commands are executed.
#[derive(Debug, Clone, Copy, PartialEq, Eq, Structural)]
pub enum ExecutionMode {
    All,
    TillFocused,
}

/// An external pager that is fed with output.
#[derive(Debug, Clone, Copy, PartialEq, Eq, Structural)]
pub struct Pager {
    /// Whether the standard input of the pager is open.
    pub stdin: bool,
    pub bytes_written: usize,
}

/// A program that has taken over the terminal.
#[derive(Debug, Clone, Copy, PartialEq, Eq, Structural)]
pub enum ExternalProcess {
    Pager(Pager),
    Editor,
}

/// What is to be done outside of the application's state.
pub enum Effect {
    Nothing,
    /// Kill the processes of the stages at these indices.
    Kill(Vec<usize>),
    SetClipboard(String),
    LaunchPager,
    /// Launch an editor on this text.
    LaunchEditor(String),
}

pub struct App {
    pub options: Options,
    pub id_gen: IdGenerator,
    pub should_quit: Option<QuitResult>,
    /// The commands that the user edits.
    pub pipeline: Vec<Stage>,
    /// The current execution.
    pub execution: Execution,
    /// The commands to execute when all interrupted stages are finished.
    pub pending_execution: Option<PendingExecution>,
    /// Whether the current execution may be reused for the next one.
    pub can_reuse_execution: bool,
    /// Index of the stage that the user edits.
    pub focused_stage: usize,
    /// Index of the stage whose output is shown.
    pub shown_stage_index: usize,
    pub popup: Option<KeysPopup>,
    pub external_process: Option<ExternalProcess>,
}

/// The view of the application.
pub struct AppView {
    pub print_on_exit: PrintOnExit,
    pub syntax_highlight: bool,
    pub next_id: usize,
    pub quit: Option<QuitView>,
    pub pipeline: Seq<StageView>,
    pub execution: ExecutionView,
    pub pending: Option<Seq<PendingStageView>>,
    pub can_reuse: bool,
    pub focused: usize,
    pub shown: usize,
    pub popup: Option<Seq<PopupKeyView>>,
    pub external: Option<ExternalProcess>,
}

pub open spec fn stage_views(stages: Seq<Stage>) -> Seq<StageView> {
    stages.map_values(|stage: Stage| stage@)
}

impl View for App {
    type V = AppView;

    open spec fn view(&self) -> AppView {
        AppView {
            print_on_exit: self.options.print_on_exit,
            syntax_highlight: self.options.syntax_highlight,
            next_id: self.id_gen@,
            quit: match self.should_quit {
                Some(result) => Some(result@),
                None => None,
            },
            pipeline: stage_views(self.pipeline@),
            execution: self.execution@,
            pending: match self.pending_execution {
                Some(pending) => Some(pending@),
                None => None,
            },
            can_reuse: self.can_reuse_execution,
            focused: self.focused_stage,
            shown: self.shown_stage_index,
            popup: match self.popup {
                Some(popup) => Some(popup@),
                None => None,
            },
            external: self.external_process,
        }
    }
}

/// The commands of the stages.
pub open spec fn commands_of(stages: Seq<StageView>) -> Seq<Seq<char>> {
    stages.map_values(|stage: StageView| stage.field.text)
}

/// The commands to execute for the given stages. Each enabled stage has its command executed. A
/// disabled stage is attached to the enabled stage before it, and is left out if there is none.
pub open spec fn pending_for(stages: Seq<StageView>) -> Seq<PendingStageView>
    decreases stages.len(),
{
    if stages.len() == 0 {
        Seq::empty()
    } else {
        let before = pending_for(stages.drop_last());
        let stage = stages.last();
        if stage.enabled {
            before.push(
                PendingStageView { stage_ids: seq![stage.id], command: stage.field.text },
            )
        } else if before.len() > 0 {
            before.drop_last().push(
                PendingStageView {
                    stage_ids: before.last().stage_ids.push(stage.id),
                    ..before.last()
                },
            )
        } else {
            before
        }
    }
}

/// The index of the first stage at `i` or behind it that is enabled, or the number of stages.
pub open spec fn next_enabled(stages: Seq<StageView>, i: int) -> int
    decreases stages.len() - i,
{
    if 0 <= i < stages.len() && !stages[i].enabled {
        next_enabled(stages, i + 1)
    } else {
        i
    }
}

/// The commands that a list of pipelines is made of, or the first error.
pub open spec fn split_all(pipelines: Seq<Seq<char>>) -> Result<Seq<Seq<char>>, ParseError>
    decreases pipelines.len(),
{
    if pipelines.len() == 0 {
        Ok(Seq::empty())
    } else {
        match split_all(pipelines.drop_last()) {
            Err(error) => Err(error),
            Ok(before) => match parser::parsed(pipelines.last()) {
                Err(error) => Err(error),
                Ok(commands) => Ok(before + commands),
            },
        }
    }
}

/// The commands that the application starts with, or the reason why it does not start.
pub open spec fn initial_commands(
    commands: Seq<Seq<char>>,
    parse_commands: bool,
) -> Result<Seq<Seq<char>>, ParseError> {
    if parse_commands {
        split_all(commands)
    } else {
        Ok(commands)
    }
}

/// The stages that the application starts with: one for each command, or one without a command.
pub open spec fn initial_stages(commands: Seq<Seq<char>>) -> Seq<StageView> {
    if commands.len() == 0 {
        seq![pipeline::new_stage(0, Seq::empty())]
    } else {
        Seq::new(commands.len(), |i: int| pipeline::new_stage(i as usize, commands[i]))
    }
}

/// The application at the start, before anything is executed.
pub open spec fn initial_view(
    print_on_exit: PrintOnExit,
    syntax_highlight: bool,
    stages: Seq<StageView>,
) -> AppView {
    AppView {
        print_on_exit,
        syntax_highlight,
        next_id: stages.len() as usize,
        quit: None,
        pipeline: stages,
        execution: ExecutionView::empty(),
        pending: None,
        can_reuse: true,
        focused: (stages.len() - 1) as usize,
        shown: (stages.len() - 1) as usize,
        popup: None,
        external: None,
    }
}

/// The application right after its start: where that is asked for, all commands are executed.
pub open spec fn launched(start: AppView, execute: bool) -> AppView {
    if execute {
        start.with_pending(ExecutionMode::All).with_execution()
    } else {
        start
    }
}

/// What is to be started right after the start of the application, if anything is.
pub open spec fn launch_plan(start: AppView, execute: bool) -> Option<pipeline::StartPlanView> {
    if execute {
        let asked = start.with_pending(ExecutionMode::All);
        Some(pipeline::start_plan(asked.pending->0, asked.offered()))
    } else {
        None
    }
}

/// The entries of the popup that asks what to print, if one is needed.
pub open spec fn quit_entries(print_on_exit: PrintOnExit) -> Option<Seq<PopupKeyView>> {
    match print_on_exit {
        PrintOnExit::Nothing => None,
        PrintOnExit::Ask => Some(
            seq![
                popup::plain_entry(
                    'q',
                    "Quit without printing"@,
                    Action::Quit(QuitAction::Succeed),
                ),
                popup::plain_entry(
                    'o',
                    "Quit and print output"@,
                    Action::Quit(QuitAction::PrintOutput),
                ),
                popup::plain_entry(
                    'p',
                    "Quit and print pipeline"@,
                    Action::Quit(QuitAction::PrintPipeline),
                ),
            ],
        ),
        PrintOnExit::Pipeline => Some(
            seq![
                popup::plain_entry(
                    'y',
                    "Print pipeline and quit"@,
                    Action::Quit(QuitAction::PrintPipeline),
                ),
                popup::plain_entry(
                    'n',
                    "Quit without printing"@,
                    Action::Quit(QuitAction::Cancel),
                ),
            ],
        ),
        PrintOnExit::Output => Some(
            seq![
                popup::plain_entry(
                    'y',
                    "Print output and quit"@,
                    Action::Quit(QuitAction::PrintOutput),
                ),
                popup::plain_entry(
                    'n',
                    "Quit without printing"@,
                    Action::Quit(QuitAction::Cancel),
                ),
            ],
        ),
    }
}

/// The entries of the popup that asks what to copy.
pub open spec fn copy_entries() -> Seq<PopupKeyView> {
    seq![
        popup::plain_entry(
            'c',
            "Focused stage command"@,
            Action::CopyToClipboard(CopySource::FocusedStageCommand),
        ),
        popup::plain_entry(
            'p',
            "Whole pipeline command"@,
            Action::CopyToClipboard(CopySource::WholePipeline),
        ),
        popup::plain_entry(
            's',
            "Shown stage output"@,
            Action::CopyToClipboard(CopySource::ShownStageOutput),
        ),
        popup::plain_entry(
            'o',
            "Final output"@,
            Action::CopyToClipboard(CopySource::FinalStageOuput),
        ),
    ]
}

/// The action of a key that opens no popup.
pub open spec fn action_of_key(pressed: KeyEvent) -> Action {
    if pressed.pressed(KeyCode::Char('p'), key::CONTROL) {
        Action::NewStageAbove
    } else if pressed.pressed(KeyCode::Char('n'), key::CONTROL) {
        Action::NewStageBelow
    } else if pressed.pressed(KeyCode::Char('d'), key::CONTROL) {
        Action::DeleteStage
    } else if pressed.pressed(KeyCode::Char('x'), key::CONTROL) {
        Action::ToggleStage
    } else if pressed.pressed(KeyCode::Char('c'), key::CONTROL_SHIFT) {
        Action::AbortPipeline
    } else if pressed.pressed(KeyCode::Up, key::NONE) {
        Action::FocusPreviousStage
    } else if pressed.pressed(KeyCode::Down, key::NONE) {
        Action::FocusNextStage
    } else if pressed.pressed(KeyCode::Enter, key::NONE) {
        Action::Execute
    } else if pressed.pressed(KeyCode::Enter, key::ALT) {
        Action::ExecuteAll
    } else if pressed.pressed(KeyCode::Char(' '), key::CONTROL) {
        Action::ShowStageOutput
    } else if pressed.pressed(KeyCode::Char('l'), key::CONTROL) {
        Action::LaunchPager
    } else if pressed.pressed(KeyCode::Char('v'), key::CONTROL) {
        Action::LaunchEditor
    } else if pressed.pressed(KeyCode::Char('r'), key::CONTROL) {
        Action::RestartPipeline
    } else {
        Action::Input(pressed)
    }
}

impl AppView {
    /// What holds as long as the application runs: there is at least one stage, the focused and
    /// the shown stage exist, identifiers of stages are unique, cursors lie within their commands,
    /// and the execution is consistent.
    pub open spec fn valid(self) -> bool {
        &&& self.quit is None ==> {
            &&& self.focused < self.pipeline.len()
            &&& self.shown < self.pipeline.len()
        }
        &&& self.unique_ids()
        &&& self.fields_are_consistent()
        &&& self.execution.valid()
        &&& self.pending is Some ==> self.execution.interrupted_since
            <= self.execution.pipeline.len()
    }

    /// The cursor of every stage lies within its command.
    pub open spec fn fields_are_consistent(self) -> bool {
        forall|i: int|
            0 <= i < self.pipeline.len() ==> (#[trigger] self.pipeline[i]).field.is_consistent()
    }

    /// No two stages have the same identifier, and none has one that is still to be handed out.
    pub open spec fn unique_ids(self) -> bool {
        &&& forall|i: int|
            0 <= i < self.pipeline.len() ==> (#[trigger] self.pipeline[i]).id < self.next_id
        &&& forall|i: int, j: int|
            0 <= i < j < self.pipeline.len() ==> (#[trigger] self.pipeline[i]).id != (
            #[trigger] self.pipeline[j]).id
    }

    /// Whether the application runs and is consistent.
    pub open spec fn running(self) -> bool {
        self.valid() && self.quit is None
    }

    /// The index of the execution of the shown stage, if it has one.
    pub open spec fn shown_execution(self) -> Option<usize> {
        let id = self.pipeline[self.shown as int].id;
        if self.execution.index.dom().contains(id) {
            Some(self.execution.index[id])
        } else {
            None
        }
    }

    /// The commands to execute in the given mode. Up to the focused stage means up to all disabled
    /// stages right behind it.
    pub open spec fn pending_in(self, mode: ExecutionMode) -> Seq<PendingStageView> {
        match mode {
            ExecutionMode::All => pending_for(self.pipeline),
            ExecutionMode::TillFocused => pending_for(
                self.pipeline.take(next_enabled(self.pipeline, self.focused + 1)),
            ),
        }
    }

    /// The first stage that an execution in the given mode has no use for.
    pub open spec fn interrupted_by(self, mode: ExecutionMode) -> usize {
        pipeline::reusable_count(self.pending_in(mode), self.execution.live()) as usize
    }

    /// The application once an execution in the given mode was asked for: what cannot be reused is
    /// interrupted.
    pub open spec fn with_pending(self, mode: ExecutionMode) -> AppView {
        AppView {
            pending: Some(self.pending_in(mode)),
            execution: self.execution.interrupted(self.interrupted_by(mode)),
            ..self
        }
    }

    /// The stages that are offered for reuse to the pending execution.
    pub open spec fn offered(self) -> Seq<StageExecutionView> {
        if self.can_reuse {
            self.execution.live()
        } else {
            Seq::empty()
        }
    }

    /// The application once the pending execution was started.
    pub open spec fn with_execution(self) -> AppView {
        AppView {
            execution: pipeline::executed(self.pending->0, self.offered()),
            pending: None,
            can_reuse: true,
            ..self
        }
    }

    /// The application with a new stage at the given place.
    pub open spec fn with_new_stage(self, at: int) -> AppView {
        AppView {
            pipeline: self.pipeline.insert(at, pipeline::new_stage(self.next_id, Seq::empty())),
            next_id: (self.next_id + 1) as usize,
            ..self
        }
    }

    /// The application without the focused stage. The last stage is never deleted.
    pub open spec fn with_stage_deleted(self) -> AppView {
        if self.pipeline.len() > 1 {
            AppView {
                pipeline: self.pipeline.remove(self.focused as int),
                focused: if self.focused != 0 {
                    (self.focused - 1) as usize
                } else {
                    0
                },
                shown: if self.shown < self.pipeline.len() - 1 {
                    self.shown
                } else {
                    (self.pipeline.len() - 2) as usize
                },
                ..self
            }
        } else {
            self
        }
    }

    /// The application with another focused stage in the place of the focused one.
    pub open spec fn with_focused(self, stage: StageView) -> AppView {
        AppView { pipeline: self.pipeline.update(self.focused as int, stage), ..self }
    }

    /// What the program is left with.
    pub open spec fn quit_result(self, action: QuitAction) -> QuitView {
        match action {
            QuitAction::Succeed => QuitView::Success,
            QuitAction::Cancel => QuitView::Cancel,
            QuitAction::PrintPipeline => QuitView::Pipeline(commands_of(self.pipeline)),
            QuitAction::PrintOutput => if self.execution.pipeline.len() > 0 {
                QuitView::Output(self.execution.pipeline.last().output)
            } else {
                QuitView::Cancel
            },
        }
    }

    /// The application once an action was carried out.
    pub open spec fn acted(self, action: Action) -> AppView {
        let focused_stage = self.pipeline[self.focused as int];
        match action {
            Action::Quit(quit) => AppView {
                quit: Some(self.quit_result(quit)),
                pipeline: if quit == QuitAction::PrintPipeline {
                    Seq::empty()
                } else {
                    self.pipeline
                },
                ..self
            },
            Action::NewStageAbove => self.with_new_stage(self.focused as int),
            Action::NewStageBelow => AppView {
                focused: (self.focused + 1) as usize,
                ..self.with_new_stage(self.focused + 1)
            },
            Action::DeleteStage => self.with_stage_deleted(),
            Action::ToggleStage => self.with_focused(
                StageView { enabled: !focused_stage.enabled, ..focused_stage },
            ),
            Action::AbortPipeline => AppView { execution: self.execution.interrupted(0), ..self },
            Action::FocusPreviousStage => AppView {
                focused: if self.focused != 0 {
                    (self.focused - 1) as usize
                } else {
                    0
                },
                ..self
            },
            Action::FocusNextStage => AppView {
                focused: if self.focused < self.pipeline.len() - 1 {
                    (self.focused + 1) as usize
                } else {
                    self.focused
                },
                ..self
            },
            Action::Execute => AppView {
                shown: self.focused,
                ..self.with_pending(ExecutionMode::TillFocused)
            },
            Action::ExecuteAll => AppView {
                shown: self.focused,
                ..self.with_pending(ExecutionMode::All)
            },
            Action::ShowStageOutput => AppView { shown: self.focused, ..self },
            Action::LaunchPager => self,
            Action::LaunchEditor => AppView { external: Some(ExternalProcess::Editor), ..self },
            Action::Input(pressed) => self.with_focused(
                StageView { field: input::edited(focused_stage.field, pressed), ..focused_stage },
            ),
            Action::CopyToClipboard(_) => self,
            Action::RestartPipeline => AppView {
                can_reuse: false,
                ..self.with_pending(ExecutionMode::All)
            },
        }
    }

    /// Whether a plain character that is handed to the focused stage ends up at its cursor.
    pub open spec fn types_plain_characters(self, action: Action, after: AppView) -> bool {
        action matches Action::Input(pressed) ==> pressed.code matches KeyCode::Char(c)
            ==> input::types(FieldKey::Char(c), pressed.modifiers.bits, pressed.kind)
            ==> after.pipeline[self.focused as int].field == input::typed(
            self.pipeline[self.focused as int].field,
            c,
        )
    }

    /// The text to copy, if there is any. Output that is not valid UTF-8 is not copied.
    pub open spec fn copied_text(self, source: CopySource) -> Option<Seq<char>> {
        match source {
            CopySource::FocusedStageCommand => Some(
                self.pipeline[self.focused as int].field.text,
            ),
            CopySource::WholePipeline => Some(text::joined(commands_of(self.pipeline))),
            CopySource::ShownStageOutput => match self.shown_execution() {
                Some(i) => output_text(self.execution.pipeline[i as int]),
                None => None,
            },
            CopySource::FinalStageOuput => if self.execution.pipeline.len() > 0 {
                output_text(self.execution.pipeline.last())
            } else {
                None
            },
        }
    }

    /// Whether `effect` is what an action has to be done for outside of the application.
    pub open spec fn has_effect(self, action: Action, effect: Effect) -> bool {
        match action {
            Action::AbortPipeline => is_kill(effect, self.execution, 0),
            Action::Execute => is_kill(
                effect,
                self.execution,
                self.interrupted_by(ExecutionMode::TillFocused),
            ),
            Action::ExecuteAll | Action::RestartPipeline => is_kill(
                effect,
                self.execution,
                self.interrupted_by(ExecutionMode::All),
            ),
            Action::LaunchPager => if self.shown_execution() is Some {
                effect is LaunchPager
            } else {
                effect is Nothing
            },
            Action::LaunchEditor => effect matches Effect::LaunchEditor(command) && command@
                == self.pipeline[self.focused as int].field.text,
            Action::CopyToClipboard(source) => match self.copied_text(source) {
                Some(copied) => effect matches Effect::SetClipboard(set) && set@ == copied,
                None => effect is Nothing,
            },
            _ => effect is Nothing,
        }
    }

    /// The application and the action that an event of the terminal leads to.
    pub open spec fn event_result(self, event: Event) -> (AppView, Option<Action>) {
        match self.popup {
            Some(entries) => if event matches Event::Key(pressed) && pressed.pressed(
                KeyCode::Esc,
                key::NONE,
            ) {
                (AppView { popup: None, ..self }, None)
            } else {
                let action = popup::action_for_event(entries, event);
                if action is Some {
                    (AppView { popup: None, ..self }, action)
                } else {
                    (self, None)
                }
            },
            None => match event {
                Event::Key(pressed) => if pressed.pressed(KeyCode::Char('q'), key::CONTROL) {
                    match quit_entries(self.print_on_exit) {
                        Some(entries) => (AppView { popup: Some(entries), ..self }, None),
                        None => (self, Some(Action::Quit(QuitAction::Succeed))),
                    }
                } else if pressed.pressed(KeyCode::Char('y'), key::CONTROL) {
                    (AppView { popup: Some(copy_entries()), ..self }, None)
                } else {
                    (self, Some(action_of_key(pressed)))
                },
                Event::Other => (self, None),
            },
        }
    }

    /// Whether the application can carry out the action: identifiers are left for a new stage, and
    /// an external program is launched only where none runs.
    pub open spec fn can_act(self, action: Action) -> bool {
        match action {
            Action::NewStageAbove | Action::NewStageBelow => self.next_id < usize::MAX,
            Action::LaunchPager | Action::LaunchEditor => self.external is None,
            _ => true,
        }
    }
}

/// The output of a stage as text, if it is valid UTF-8.
pub open spec fn output_text(stage: StageExecutionView) -> Option<Seq<char>> {
    if valid_utf8(stage.output) {
        Some(decode_utf8(stage.output))
    } else {
        None
    }
}

/// Whether `effect` kills the processes that an interruption from the stage at `from` on kills.
pub open spec fn is_kill(effect: Effect, execution: ExecutionView, from: usize) -> bool {
    effect matches Effect::Kill(killed) && pipeline::lists_killed(killed@, execution, from)
}

proof fn lemma_next_enabled(stages: Seq<StageView>, i: int)
    requires
        0 <= i <= stages.len(),
    ensures
        i <= next_enabled(stages, i) <= stages.len(),
    decreases stages.len() - i,
{
    if i < stages.len() && !stages[i].enabled {
        lemma_next_enabled(stages, i + 1);
    }
}

/// The copies of the commands of all stages.
fn stage_commands(stages: &Vec<Stage>) -> (r: Vec<String>)
    ensures
        text::string_views(r@) == commands_of(stage_views(stages@)),
{
    let mut commands: Vec<String> = Vec::new();
    let mut i: usize = 0;
    while i < stages.len()
        invariant
            i <= stages@.len(),
            commands@.len() == i,
            forall|j: int|
                0 <= j < i ==> (#[trigger] commands@[j])@ == stage_views(stages@)[j].field.text,
        decreases stages@.len() - i,
    {
        commands.push(stages[i].input.value().to_owned());
        i = i + 1;
    }
    assert(text::string_views(commands@) =~= commands_of(stage_views(stages@)));
    commands
}

/// Takes the commands out of all stages.
fn take_commands(stages: Vec<Stage>) -> (r: Vec<String>)
    ensures
        text::string_views(r@) == commands_of(stage_views(stages@)),
{
    let ghost views = stage_views(stages@);
    let mut stages = stages;
    let mut commands: Vec<String> = Vec::new();
    let mut i: usize = 0;
    while i < stages.len()
        invariant
            i <= stages@.len() == views.len(),
            commands@.len() == i,
            forall|j: int| i <= j < views.len() ==> (#[trigger] stages@[j])@ == views[j],
            forall|j: int| 0 <= j < i ==> (#[trigger] commands@[j])@ == views[j].field.text,
        decreases views.len() - i,
    {
        assert(stages@[i as int]@ == views[i as int]);
        commands.push(stages[i].input.value_and_reset());
        i = i + 1;
    }
    assert(text::string_views(commands@) =~= commands_of(views));
    commands
}

/// Splits each of the given pipelines into its commands.
fn split_commands(pipelines: &Vec<String>) -> (r: Result<Vec<String>, ParseError>)
    ensures
        match r {
            Ok(commands) => split_all(text::string_views(pipelines@)) == Ok::<_, ParseError>(
                text::string_views(commands@),
            ),
            Err(error) => split_all(text::string_views(pipelines@)) == Err::<Seq<Seq<char>>, _>(
                error,
            ),
        },
{
    let ghost all = text::string_views(pipelines@);
    let mut commands: Vec<String> = Vec::new();
    let mut i: usize = 0;
    proof {
        assert(all.take(0) =~= Seq::empty());
        assert(text::string_views(commands@) =~= Seq::empty());
    }
    while i < pipelines.len()
        invariant
            i <= pipelines@.len(),
            all == text::string_views(pipelines@),
            split_all(all.take(i as int)) == Ok::<_, ParseError>(text::string_views(commands@)),
        decreases pipelines@.len() - i,
    {
        proof {
            assert(all.take(i + 1).drop_last() =~= all.take(i as int));
            assert(all.take(i + 1).last() == pipelines@[i as int]@);
        }
        match parser::split_pipeline(pipelines[i].as_str()) {
            Ok(parts) => {
                let ghost before = commands@;
                let mut k: usize = 0;
                assert(text::string_views(before) + parser::views(parts@).take(0)
                    =~= text::string_views(before));
                while k < parts.len()
                    invariant
                        k <= parts@.len(),
                        text::string_views(commands@) == text::string_views(before)
                            + parser::views(parts@).take(k as int),
                    decreases parts@.len() - k,
                {
                    let ghost old_commands = commands@;
                    commands.push(parts[k].to_owned());
                    proof {
                        let done = parser::views(parts@);
                        assert(text::string_views(commands@) =~= text::string_views(
                            old_commands,
                        ).push(parts@[k as int]@));
                        assert(text::string_views(before) + done.take(k + 1) =~= (
                        text::string_views(before) + done.take(k as int)).push(parts@[k as int]@));
                    }
                    k = k + 1;
                }
                assert(parser::views(parts@).take(k as int) =~= parser::views(parts@));
            },
            Err(error) => {
                proof {
                    lemma_split_all_error(all, i + 1);
                }
                return Err(error);
            },
        }
        i = i + 1;
    }
    assert(all.take(i as int) =~= all);
    Ok(commands)
}

/// The first error stays the result, whatever comes behind it.
proof fn lemma_split_all_error(pipelines: Seq<Seq<char>>, n: int)
    requires
        0 <= n <= pipelines.len(),
        split_all(pipelines.take(n)) is Err,
    ensures
        split_all(pipelines) == split_all(pipelines.take(n)),
    decreases pipelines.len(),
{
    if n == pipelines.len() {
        assert(pipelines.take(n) =~= pipelines);
    } else {
        assert(pipelines.drop_last().take(n) =~= pipelines.take(n));
        lemma_split_all_error(pipelines.drop_last(), n);
    }
}

/// Makes a stage for each command, or one without a command if there is none.
fn make_stages(commands: Vec<String>) -> (r: (Vec<Stage>, IdGenerator))
    ensures
        stage_views(r.0@) == initial_stages(text::string_views(commands@)),
        r.1@ == r.0@.len(),
{
    let mut id_gen = IdGenerator::new();
    let mut stages: Vec<Stage> = Vec::new();
    let mut i: usize = 0;
    while i < commands.len()
        invariant
            i <= commands@.len(),
            stages@.len() == i,
            id_gen@ == i,
            forall|j: int|
                0 <= j < i ==> (#[trigger] stages@[j])@ == pipeline::new_stage(
                    j as usize,
                    commands@[j]@,
                ),
        decreases commands@.len() - i,
    {
        let id = id_gen.gen_id();
        stages.push(Stage::with_command(id, commands[i].clone()));
        i = i + 1;
    }
    if stages.len() == 0 {
        stages.push(Stage::new(id_gen.gen_id()));
    }
    assert(stage_views(stages@) =~= initial_stages(text::string_views(commands@)));
    (stages, id_gen)
}

impl App {
    /// Starts the application. Where commands are executed right away, what is to be started for
    /// that comes along.
    pub fn new(options: Options) -> (r: Result<(App, Option<StartPlan>), ParseError>)
        ensures
            match initial_commands(
                text::string_views(options.commands@),
                options.parse_commands,
            ) {
                Err(error) => r == Err::<(App, Option<StartPlan>), _>(error),
                Ok(commands) => r matches Ok((app, plan)) && {
                    let start = initial_view(
                        options.print_on_exit,
                        options.syntax_highlight,
                        initial_stages(commands),
                    );
                    &&& app@.running()
                    &&& app.options.shell == options.shell
                    &&& app.options.pager == options.pager
                    &&& app.options.editor == options.editor
                    &&& app@ == launched(start, options.execute_on_start)
                    &&& match plan {
                        Some(plan) => Some(plan@),
                        None => None,
                    } == launch_plan(start, options.execute_on_start)
                },
            },
    {
        let mut options = options;
        let mut given: Vec<String> = Vec::new();
        std::mem::swap(&mut given, &mut options.commands);
        let commands = if options.parse_commands {
            match split_commands(&given) {
                Ok(commands) => commands,
                Err(error) => {
                    return Err(error);
                },
            }
        } else {
            given
        };
        let (stages, id_gen) = make_stages(commands);
        let last = stages.len() - 1;
        let execute_on_start = options.execute_on_start;
        let mut app = App {
            options,
            id_gen,
            should_quit: None,
            pipeline: stages,
            execution: Execution::default(),
            pending_execution: None,
            can_reuse_execution: true,
            focused_stage: last,
            shown_stage_index: last,
            popup: None,
            external_process: None,
        };
        let mut plan = None;
        if execute_on_start {
            app.create_pending_execution(ExecutionMode::All);
            plan = app.execute_pending();
        }
        Ok((app, plan))
    }

    /// Asks for an execution in the given mode, and interrupts what it has no use for. Returns the
    /// indices of the stages whose processes are to be killed.
    pub fn create_pending_execution(&mut self, mode: ExecutionMode) -> (killed: Vec<usize>)
        requires
            old(self)@.running(),
        ensures
            final(self)@ == old(self)@.with_pending(mode),
            final(self)@.running(),
            final(self).options == old(self).options,
            pipeline::lists_killed(
                killed@,
                old(self)@.execution,
                old(self)@.interrupted_by(mode),
            ),
    {
        let ghost stages = self@.pipeline;
        let count: usize = self.pipeline.len();
        // Determine range of commands to execute.
        let end: usize = match mode {
            ExecutionMode::All => count,
            ExecutionMode::TillFocused => {
                let mut i: usize = self.focused_stage + 1;
                // Attach following disabled stages, since their output comes "for free".
                while i < self.pipeline.len() && !self.pipeline[i].enabled
                    invariant
                        i <= self.pipeline@.len(),
                        stages == stage_views(self.pipeline@),
                        next_enabled(stages, self.focused_stage + 1) == next_enabled(
                            stages,
                            i as int,
                        ),
                    decreases self.pipeline@.len() - i,
                {
                    assert(!stages[i as int].enabled);
                    i = i + 1;
                }
                i
            },
        };
        let ghost chosen = stages.take(end as int);
        proof {
            assert(mode == ExecutionMode::All ==> chosen =~= stages);
            assert(chosen.take(0) =~= Seq::empty());
        }

        let mut pending: Vec<PendingStage> = Vec::new();
        let mut i: usize = 0;
        assert(PendingExecution { pipeline: pending }@ =~= pending_for(chosen.take(0)));
        while i < end
            invariant
                i <= end <= self.pipeline@.len(),
                stages == stage_views(self.pipeline@),
                chosen == stages.take(end as int),
                (PendingExecution { pipeline: pending })@ == pending_for(chosen.take(i as int)),
            decreases end - i,
        {
            let stage = &self.pipeline[i];
            let ghost before = PendingExecution { pipeline: pending };
            proof {
                assert(chosen.take(i + 1).drop_last() =~= chosen.take(i as int));
                assert(chosen.take(i + 1).last() == stage@);
            }
            if stage.enabled {
                let stage_ids = vec![stage.id];
                let command = stage.input.value().to_owned();
                pending.push(PendingStage { stage_ids, command });
                proof {
                    assert(pipeline::id_numbers(stage_ids@) =~= seq![stage.id@]);
                    assert((PendingExecution { pipeline: pending })@ =~= before@.push(
                        PendingStageView { stage_ids: seq![stage.id@], command: command@ },
                    ));
                }
            } else if let Some(mut last) = pending.pop() {
                let ghost old_ids = last.stage_ids@;
                last.stage_ids.push(stage.id);
                pending.push(last);
                proof {
                    assert(before@.last() == before.pipeline@.last()@);
                    assert(pipeline::id_numbers(last.stage_ids@) =~= pipeline::id_numbers(
                        old_ids,
                    ).push(stage.id@));
                    assert((PendingExecution { pipeline: pending })@ =~= before@.drop_last().push(
                        last@,
                    ));
                }
            }
            i = i + 1;
        }
        assert(chosen.take(end as int) =~= chosen);

        // Find how many stages may be reused, and interrupt all others.
        let pending_execution = PendingExecution { pipeline: pending };
        let stages_to_reuse = pending_execution.calculate_number_of_stages_to_reuse(
            &self.execution,
        );
        let killed = self.execution.interrupt(stages_to_reuse);
        self.pending_execution = Some(pending_execution);
        killed
    }

    /// Starts the pending execution, if there is one. All interrupted stages have to be finished.
    /// Returns what is to be done for it with the processes.
    pub fn execute_pending(&mut self) -> (plan: Option<StartPlan>)
        requires
            old(self)@.running(),
            old(self)@.pending is Some ==> old(self)@.execution.is_settled(),
        ensures
            final(self)@.running(),
            final(self).options == old(self).options,
            match old(self)@.pending {
                Some(pending) => {
                    &&& final(self)@ == old(self)@.with_execution()
                    &&& plan matches Some(plan) && plan@ == pipeline::start_plan(
                        pending,
                        old(self)@.offered(),
                    )
                },
                None => final(self)@ == old(self)@ && plan is None,
            },
    {
        let pending_execution = match self.pending_execution.take() {
            Some(pending_execution) => pending_execution,
            None => {
                return None;
            },
        };
        let mut last_execution = Execution::default();
        std::mem::swap(&mut last_execution, &mut self.execution);
        let reusable_stages = if self.can_reuse_execution {
            last_execution.reuse()
        } else {
            self.can_reuse_execution = true;
            Vec::new()
        };
        assert(!old(self)@.can_reuse ==> pipeline::stage_views(reusable_stages@) =~= Seq::empty());
        let (execution, plan) = pending_execution.execute(reusable_stages);
        self.execution = execution;
        Some(plan)
    }

    /// Reacts to an event of the terminal: finds the action that it asks for, and carries it out.
    pub fn handle_input(&mut self, event: Event) -> (effect: Effect)
        requires
            old(self)@.running(),
            old(self)@.event_result(event).1 matches Some(action) ==> old(self)@.can_act(action),
        ensures
            final(self)@.valid(),
            final(self).options == old(self).options,
            ({
                let (state, action) = old(self)@.event_result(event);
                match action {
                    Some(action) => {
                        &&& final(self)@ == state.acted(action)
                        &&& state.has_effect(action, effect)
                        &&& state.types_plain_characters(action, final(self)@)
                    },
                    None => final(self)@ == state && effect is Nothing,
                }
            }),
    {
        match self.get_action_for_event(event) {
            Some(action) => self.handle_action(action),
            None => Effect::Nothing,
        }
    }

    /// Finds the action that an event of the terminal asks for. Opens and closes popups.
    pub fn get_action_for_event(&mut self, event: Event) -> (action: Option<Action>)
        ensures
            (final(self)@, action) == old(self)@.event_result(event),
            final(self).options == old(self).options,
    {
        if let Some(popup) = &self.popup {
            if let Event::Key(pressed) = event {
                if pressed.is_press_of(KeyCode::Esc, key::NONE) {
                    self.popup = None;
                    return None;
                }
            }
            let action = popup.get_action(event);
            if action.is_some() {
                self.popup = None;
            }
            return action;
        }
        let pressed = match event {
            Event::Key(pressed) => pressed,
            Event::Other => {
                return None;
            },
        };
        if pressed.is_press_of(KeyCode::Char('q'), key::CONTROL) {
            let keys = match self.options.print_on_exit {
                PrintOnExit::Nothing => {
                    return Some(Action::Quit(QuitAction::Succeed));
                },
                PrintOnExit::Ask => vec![
                    PopupKey::plain(
                        'q',
                        "Quit without printing",
                        Action::Quit(QuitAction::Succeed),
                    ),
                    PopupKey::plain(
                        'o',
                        "Quit and print output",
                        Action::Quit(QuitAction::PrintOutput),
                    ),
                    PopupKey::plain(
                        'p',
                        "Quit and print pipeline",
                        Action::Quit(QuitAction::PrintPipeline),
                    ),
                ],
                PrintOnExit::Pipeline => vec![
                    PopupKey::plain(
                        'y',
                        "Print pipeline and quit",
                        Action::Quit(QuitAction::PrintPipeline),
                    ),
                    PopupKey::plain(
                        'n',
                        "Quit without printing",
                        Action::Quit(QuitAction::Cancel),
                    ),
                ],
                PrintOnExit::Output => vec![
                    PopupKey::plain(
                        'y',
                        "Print output and quit",
                        Action::Quit(QuitAction::PrintOutput),
                    ),
                    PopupKey::plain(
                        'n',
                        "Quit without printing",
                        Action::Quit(QuitAction::Cancel),
                    ),
                ],
            };
            assert(popup::key_views(keys@) =~= quit_entries(self.options.print_on_exit)->0);
            self.popup = Some(KeysPopup::new(keys));
            return None;
        }
        if pressed.is_press_of(KeyCode::Char('y'), key::CONTROL) {
            let keys = vec![
                PopupKey::plain(
                    'c',
                    "Focused stage command",
                    Action::CopyToClipboard(CopySource::FocusedStageCommand),
                ),
                PopupKey::plain(
                    'p',
                    "Whole pipeline command",
                    Action::CopyToClipboard(CopySource::WholePipeline),
                ),
                PopupKey::plain(
                    's',
                    "Shown stage output",
                    Action::CopyToClipboard(CopySource::ShownStageOutput),
                ),
                PopupKey::plain(
                    'o',
                    "Final output",
                    Action::CopyToClipboard(CopySource::FinalStageOuput),
                ),
            ];
            assert(popup::key_views(keys@) =~= copy_entries());
            self.popup = Some(KeysPopup::new(keys));
            return None;
        }
        let action = if pressed.is_press_of(KeyCode::Char('p'), key::CONTROL) {
            Action::NewStageAbove
        } else if pressed.is_press_of(KeyCode::Char('n'), key::CONTROL) {
            Action::NewStageBelow
        } else if pressed.is_press_of(KeyCode::Char('d'), key::CONTROL) {
            Action::DeleteStage
        } else if pressed.is_press_of(KeyCode::Char('x'), key::CONTROL) {
            Action::ToggleStage
        } else if pressed.is_press_of(KeyCode::Char('c'), key::CONTROL_SHIFT) {
            Action::AbortPipeline
        } else if pressed.is_press_of(KeyCode::Up, key::NONE) {
            Action::FocusPreviousStage
        } else if pressed.is_press_of(KeyCode::Down, key::NONE) {
            Action::FocusNextStage
        } else if pressed.is_press_of(KeyCode::Enter, key::NONE) {
            Action::Execute
        } else if pressed.is_press_of(KeyCode::Enter, key::ALT) {
            Action::ExecuteAll
        } else if pressed.is_press_of(KeyCode::Char(' '), key::CONTROL) {
            Action::ShowStageOutput
        } else if pressed.is_press_of(KeyCode::Char('l'), key::CONTROL) {
            Action::LaunchPager
        } else if pressed.is_press_of(KeyCode::Char('v'), key::CONTROL) {
            Action::LaunchEditor
        } else if pressed.is_press_of(KeyCode::Char('r'), key::CONTROL) {
            Action::RestartPipeline
        } else {
            Action::Input(pressed)
        };
        Some(action)
    }

    /// Leaves the program.
    fn quit(&mut self, action: QuitAction)
        requires
            old(self)@.running(),
        ensures
            final(self)@ == old(self)@.acted(Action::Quit(action)),
            final(self)@.valid(),
            final(self).options == old(self).options,
    {
        let result = match action {
            QuitAction::Succeed => QuitResult::Success,
            QuitAction::Cancel => QuitResult::Cancel,
            QuitAction::PrintPipeline => {
                let mut stages: Vec<Stage> = Vec::new();
                std::mem::swap(&mut stages, &mut self.pipeline);
                assert(self@.pipeline =~= Seq::empty());
                QuitResult::Pipeline(take_commands(stages))
            },
            QuitAction::PrintOutput => {
                let count = self.execution.stage_count();
                if count > 0 {
                    QuitResult::Output(bytes::whole_slice(&self.execution.stage(count - 1).output))
                } else {
                    QuitResult::Cancel
                }
            },
        };
        self.should_quit = Some(result);
    }

    /// Puts a new stage at the given place.
    fn insert_stage(&mut self, at: usize)
        requires
            at <= old(self)@.pipeline.len(),
            old(self)@.next_id < usize::MAX,
            old(self)@.unique_ids(),
        ensures
            final(self)@ == old(self)@.with_new_stage(at as int),
            final(self)@.unique_ids(),
            final(self).options == old(self).options,
    {
        let id = self.id_gen.gen_id();
        let stage = Stage::new(id);
        let ghost before = self@.pipeline;
        self.pipeline.insert(at, stage);
        proof {
            let after = self@.pipeline;
            assert(after =~= before.insert(at as int, stage@));
            assert forall|i: int, j: int| 0 <= i < j < after.len() implies (#[trigger] after[i]).id
                != (#[trigger] after[j]).id by {
                let old_i = if i < at { i } else { i - 1 };
                let old_j = if j < at { j } else { j - 1 };
                if i != at && j != at {
                    assert(after[i] == before[old_i] && after[j] == before[old_j]);
                } else if i == at {
                    assert(after[j] == before[old_j]);
                } else {
                    assert(after[i] == before[old_i]);
                }
            }
        }
    }

    /// Deletes the focused stage, unless it is the only one.
    fn delete_stage(&mut self)
        requires
            old(self)@.running(),
        ensures
            final(self)@ == old(self)@.with_stage_deleted(),
            final(self)@.running(),
            final(self).options == old(self).options,
    {
        if self.pipeline.len() > 1 {
            let ghost before = self@.pipeline;
            let ghost at = self.focused_stage as int;
            self.pipeline.remove(self.focused_stage);
            proof {
                let after = self@.pipeline;
                assert(after =~= before.remove(at));
                assert forall|i: int| 0 <= i < after.len() implies (#[trigger] after[i]).id
                    < self@.next_id by {
                    assert(after[i] == before[if i < at { i } else { i + 1 }]);
                }
                assert forall|i: int, j: int| 0 <= i < j < after.len() implies (
                #[trigger] after[i]).id != (#[trigger] after[j]).id by {
                    assert(after[i] == before[if i < at { i } else { i + 1 }]);
                    assert(after[j] == before[if j < at { j } else { j + 1 }]);
                }
            }
            if self.focused_stage != 0 {
                self.focused_stage = self.focused_stage - 1;
            }
            if self.shown_stage_index >= self.pipeline.len() {
                self.shown_stage_index = self.pipeline.len() - 1;
            }
        }
    }

    /// Enables the focused stage if it is disabled, and disables it otherwise.
    fn toggle_stage(&mut self)
        requires
            old(self)@.running(),
        ensures
            final(self)@ == old(self)@.acted(Action::ToggleStage),
            final(self)@.running(),
            final(self).options == old(self).options,
    {
        let ghost before = self@;
        let enabled = self.pipeline[self.focused_stage].enabled;
        self.pipeline[self.focused_stage].enabled = !enabled;
        proof {
            lemma_updated_focus(before, self@.pipeline[before.focused as int]);
            assert(self@.pipeline =~= before.acted(Action::ToggleStage).pipeline);
        }
    }

    /// Hands a key to the focused stage.
    fn edit_stage(&mut self, pressed: KeyEvent)
        requires
            old(self)@.running(),
        ensures
            final(self)@ == old(self)@.acted(Action::Input(pressed)),
            final(self)@.running(),
            final(self).options == old(self).options,
            old(self)@.types_plain_characters(Action::Input(pressed), final(self)@),
    {
        let ghost before = self@;
        input::handle_key(&mut self.pipeline[self.focused_stage].input, &pressed);
        proof {
            lemma_updated_focus(before, self@.pipeline[before.focused as int]);
            assert(self@.pipeline =~= before.acted(Action::Input(pressed)).pipeline);
        }
    }

    /// The text to copy, if there is any.
    fn text_to_copy(&self, source: CopySource) -> (r: Option<String>)
        requires
            self@.running(),
        ensures
            match self@.copied_text(source) {
                Some(copied) => r matches Some(found) && found@ == copied,
                None => r is None,
            },
    {
        match source {
            CopySource::FocusedStageCommand => Some(
                self.pipeline[self.focused_stage].input.value().to_owned(),
            ),
            CopySource::WholePipeline => Some(
                text::join_commands(&stage_commands(&self.pipeline)),
            ),
            CopySource::ShownStageOutput => {
                match self.execution.get_index(self.pipeline[self.shown_stage_index].id) {
                    Some(i) => self.text_of_output(i),
                    None => None,
                }
            },
            CopySource::FinalStageOuput => {
                let count = self.execution.stage_count();
                if count > 0 {
                    self.text_of_output(count - 1)
                } else {
                    None
                }
            },
        }
    }

    /// The output of the given stage as text, if it is valid UTF-8.
    fn text_of_output(&self, i: usize) -> (r: Option<String>)
        requires
            i < self@.execution.pipeline.len(),
        ensures
            match output_text(self@.execution.pipeline[i as int]) {
                Some(output) => r matches Some(found) && found@ == output,
                None => r is None,
            },
    {
        broadcast use vstd::utf8::encode_utf8_decode_utf8;

        match bytes::whole_text(&self.execution.stage(i).output) {
            Some(output) => Some(output.to_owned()),
            None => None,
        }
    }

    /// Carries out an action. Returns what is to be done for it outside.
    #[verifier::rlimit(40)]
    pub fn handle_action(&mut self, action: Action) -> (effect: Effect)
        requires
            old(self)@.running(),
            old(self)@.can_act(action),
        ensures
            final(self)@ == old(self)@.acted(action),
            old(self)@.has_effect(action, effect),
            final(self)@.valid(),
            final(self).options == old(self).options,
            old(self)@.types_plain_characters(action, final(self)@),
    {
        match action {
            Action::Quit(quit) => self.quit(quit),
            Action::NewStageAbove => self.insert_stage(self.focused_stage),
            Action::NewStageBelow => {
                let count: usize = self.pipeline.len();
                self.focused_stage = self.focused_stage + 1;
                self.insert_stage(self.focused_stage);
            },
            Action::DeleteStage => self.delete_stage(),
            Action::ToggleStage => self.toggle_stage(),
            Action::AbortPipeline => {
                return Effect::Kill(self.execution.interrupt(0));
            },
            Action::FocusPreviousStage => {
                if self.focused_stage != 0 {
                    self.focused_stage = self.focused_stage - 1;
                }
            },
            Action::FocusNextStage => {
                if self.focused_stage < self.pipeline.len() - 1 {
                    self.focused_stage = self.focused_stage + 1;
                }
            },
            Action::Execute => {
                let killed = self.create_pending_execution(ExecutionMode::TillFocused);
                self.shown_stage_index = self.focused_stage;
                return Effect::Kill(killed);
            },
            Action::ExecuteAll => {
                let killed = self.create_pending_execution(ExecutionMode::All);
                self.shown_stage_index = self.focused_stage;
                return Effect::Kill(killed);
            },
            Action::ShowStageOutput => {
                self.shown_stage_index = self.focused_stage;
            },
            Action::LaunchPager => {
                return self.launch_pager();
            },
            Action::LaunchEditor => {
                return self.launch_editor();
            },
            Action::Input(pressed) => self.edit_stage(pressed),
            Action::CopyToClipboard(source) => {
                return match self.text_to_copy(source) {
                    Some(copied) => Effect::SetClipboard(copied),
                    None => Effect::Nothing,
                };
            },
            Action::RestartPipeline => {
                let killed = self.create_pending_execution(ExecutionMode::All);
                self.can_reuse_execution = false;
                return Effect::Kill(killed);
            },
        }
        Effect::Nothing
    }

    /// A pager is launched only for a stage that has an execution.
    fn launch_pager(&self) -> (effect: Effect)
        requires
            self@.running(),
        ensures
            self@.has_effect(Action::LaunchPager, effect),
    {
        match self.execution.get_index(self.pipeline[self.shown_stage_index].id) {
            Some(_) => Effect::LaunchPager,
            None => Effect::Nothing,
        }
    }

    /// An editor takes over, for the command of the focused stage.
    fn launch_editor(&mut self) -> (effect: Effect)
        requires
            old(self)@.running(),
        ensures
            final(self)@ == old(self)@.acted(Action::LaunchEditor),
            old(self)@.has_effect(Action::LaunchEditor, effect),
            final(self).options == old(self).options,
    {
        let command = self.pipeline[self.focused_stage].input.value().to_owned();
        self.external_process = Some(ExternalProcess::Editor);
        Effect::LaunchEditor(command)
    }
}

/// An update of the focused stage that keeps its identifier keeps identifiers unique.
proof fn lemma_updated_focus(state: AppView, stage: StageView)
    requires
        state.running(),
        stage.id == state.pipeline[state.focused as int].id,
        stage.field.is_consistent(),
    ensures
        state.with_focused(stage).running(),
{
    let before = state.pipeline;
    let after = state.with_focused(stage).pipeline;
    assert forall|i: int| 0 <= i < after.len() implies (#[trigger] after[i]).id == before[i].id by {}
}

} // verus!
