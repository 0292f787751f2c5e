//! What the application waits for, and its reactions to what happens.

use crate::app::{App, AppView, Effect, ExternalProcess, Pager, QuitResult, QuitView};
use crate::bytes;
use crate::input;
use crate::pipeline;
use crate::pipeline::{ExecutionView, ExitStatus, ProcessStatus, StageExecutionView, StageView};
use crate::pipeline::StartPlan;
use crate::text;
use crate::ui::key::Event;
use append_only_bytes::BytesSlice;
use tui_input::Input;
use vstd::prelude::*;
use vstd::slice::*;

verus! {

impl ExecutionView {
    /// The execution with another stage at the given index.
    pub open spec fn with_stage(self, i: int, stage: StageExecutionView) -> ExecutionView {
        ExecutionView { pipeline: self.pipeline.update(i, stage), ..self }
    }

    /// The execution once the process of a stage has ended.
    pub open spec fn terminated(self, i: int, status: ExitStatus) -> ExecutionView {
        self.with_stage(
            i,
            StageExecutionView { status: ProcessStatus::Exited(status), ..self.pipeline[i] },
        )
    }

    /// The execution once some bytes were written to the standard input of a stage. The input is
    /// closed when it takes no more bytes, and when all that will ever come was written.
    pub open spec fn fed(self, i: int, count: usize) -> ExecutionView {
        let stage = self.pipeline[i];
        let written = (stage.bytes_written_to_stdin + count) as usize;
        if count == 0 {
            self.with_stage(i, StageExecutionView { stdin: false, ..stage })
        } else {
            let previous = self.pipeline[i - 1];
            let all_written = written == previous.output.len() && !previous.stdout;
            self.with_stage(
                i,
                StageExecutionView {
                    bytes_written_to_stdin: written,
                    stdin: stage.stdin && !all_written,
                    ..stage
                },
            )
        }
    }

    /// The execution once bytes were read from the standard output of a stage. No bytes mean that
    /// it was closed; then the input of the next stage is closed too if it has got all bytes.
    pub open spec fn read(self, i: int, data: Seq<u8>) -> ExecutionView {
        let stage = self.pipeline[i];
        if data.len() > 0 {
            self.with_stage(i, StageExecutionView { output: stage.output + data, ..stage })
        } else {
            let closed = self.with_stage(i, StageExecutionView { stdout: false, ..stage });
            if i + 1 < self.pipeline.len() && self.pipeline[i + 1].bytes_written_to_stdin
                == stage.output.len() {
                closed.with_stage(
                    i + 1,
                    StageExecutionView { stdin: false, ..self.pipeline[i + 1] },
                )
            } else {
                closed
            }
        }
    }

    /// The execution once bytes were read from the standard error of a stage. No bytes mean that
    /// it was closed.
    pub open spec fn read_error(self, i: int, data: Seq<u8>) -> ExecutionView {
        let stage = self.pipeline[i];
        self.with_stage(
            i,
            if data.len() > 0 {
                StageExecutionView { eoutput: stage.eoutput + data, ..stage }
            } else {
                StageExecutionView { stderr: false, ..stage }
            },
        )
    }
}

/// The external program with the standard input of the pager closed, if it is one.
pub open spec fn pager_closed(external: Option<ExternalProcess>) -> Option<ExternalProcess> {
    match external {
        Some(ExternalProcess::Pager(pager)) => Some(
            ExternalProcess::Pager(Pager { stdin: false, ..pager }),
        ),
        _ => external,
    }
}

impl AppView {
    /// The application with another execution.
    pub open spec fn executing(self, execution: ExecutionView) -> AppView {
        AppView { execution, ..self }
    }

    /// Whether the pager has got all the output of the stage at `i`, and that is the shown one.
    pub open spec fn pager_has_all_of(self, i: int) -> bool {
        &&& self.shown_execution() matches Some(shown) && shown == i
        &&& self.external matches Some(ExternalProcess::Pager(pager)) && pager.bytes_written
            == self.execution.pipeline[i].output.len()
    }

    /// The application once bytes were read from the standard output of a stage. A pager is closed
    /// with the output of the shown stage if it has got all of it.
    pub open spec fn output_read(self, i: int, data: Seq<u8>) -> AppView {
        AppView {
            execution: self.execution.read(i, data),
            external: if data.len() == 0 && self.pager_has_all_of(i) {
                pager_closed(self.external)
            } else {
                self.external
            },
            ..self
        }
    }

    /// The application once some bytes were written to the pager. Its input is closed when it
    /// takes no more bytes, and when all that will ever come of the shown output was written.
    pub open spec fn pager_fed(self, count: usize) -> AppView {
        match self.external {
            Some(ExternalProcess::Pager(pager)) => {
                let written = (pager.bytes_written + count) as usize;
                let all_written = match self.shown_execution() {
                    Some(i) => {
                        let stage = self.execution.pipeline[i as int];
                        written == stage.output.len() && !stage.stdout
                    },
                    None => false,
                };
                let stdin = pager.stdin && count > 0 && !all_written;
                AppView {
                    external: Some(
                        ExternalProcess::Pager(Pager { stdin, bytes_written: written }),
                    ),
                    ..self
                }
            },
            _ => self,
        }
    }

    /// Whether the pending execution can be started.
    pub open spec fn can_start(self) -> bool {
        self.pending is Some && self.execution.is_settled()
    }

    /// The application once the editor has ended. The command that was edited, if that went well,
    /// takes the place of the focused one.
    pub open spec fn edited(self, command: Option<Seq<char>>) -> AppView {
        let back = AppView { external: None, ..self };
        match command {
            Some(command) => back.with_focused(
                StageView {
                    field: input::fresh(command),
                    ..self.pipeline[self.focused as int]
                },
            ),
            None => back,
        }
    }
}

impl App {
    /// The process of a stage has ended.
    pub fn handle_process_terminated(&mut self, i: usize, exit_status: ExitStatus)
        requires
            i < old(self)@.execution.pipeline.len(),
            old(self)@.execution.pipeline[i as int].status is Running,
        ensures
            final(self)@ == old(self)@.executing(
                old(self)@.execution.terminated(i as int, exit_status),
            ),
            final(self).options == old(self).options,
            old(self)@.valid() ==> final(self)@.valid(),
    {
        let stage = self.execution.stage_mut(i);
        stage.status = ProcessStatus::Exited(exit_status);
    }

    /// Bytes were written to the standard input of a stage. Zero bytes mean that it is closed.
    pub fn handle_stdin(&mut self, i: usize, bytes_written: usize)
        requires
            i < old(self)@.execution.pipeline.len(),
            bytes_written > 0 ==> i > 0,
            old(self)@.execution.pipeline[i as int].bytes_written_to_stdin + bytes_written
                <= usize::MAX,
        ensures
            final(self)@ == old(self)@.executing(
                old(self)@.execution.fed(i as int, bytes_written),
            ),
            final(self).options == old(self).options,
            old(self)@.valid() ==> final(self)@.valid(),
    {
        if bytes_written == 0 {
            let stage = self.execution.stage_mut(i);
            stage.stdin = false;
            return;
        }
        let total_written: usize = self.execution.stage(i).bytes_written_to_stdin + bytes_written;
        let should_close_stdin = {
            let prev_exec = self.execution.stage(i - 1);
            total_written == prev_exec.output.len() && !prev_exec.stdout
        };
        let stage = self.execution.stage_mut(i);
        stage.bytes_written_to_stdin = total_written;
        if should_close_stdin {
            stage.stdin = false;
        }
    }

    /// Bytes were read from the standard output of a stage. An empty slice means that it is closed.
    pub fn handle_stdout(&mut self, i: usize, buf: &[u8])
        requires
            old(self)@.running(),
            i < old(self)@.execution.pipeline.len(),
            old(self)@.execution.pipeline[i as int].output.len() + buf@.len()
                <= bytes::max_buffer_len(),
        ensures
            final(self)@ == old(self)@.output_read(i as int, buf@),
            final(self).options == old(self).options,
            final(self)@.running(),
    {
        if buf.len() > 0 {
            let stage = self.execution.stage_mut(i);
            stage.output.push_slice(buf);
            return;
        }
        let shown = self.execution.get_index(self.pipeline[self.shown_stage_index].id);
        // Stdout is closed.
        let output_len: usize = self.execution.stage(i).output.len();
        let stage = self.execution.stage_mut(i);
        stage.stdout = false;
        // Close stdin of next stage, if all data are already written.
        if i < self.execution.stage_count() - 1 {
            if self.execution.stage(i + 1).bytes_written_to_stdin == output_len {
                let next_stage = self.execution.stage_mut(i + 1);
                next_stage.stdin = false;
            }
        }
        // Close external pager input, if all data are already written.
        if let (Some(shown), Some(ExternalProcess::Pager(pager))) = (shown, self.external_process) {
            if shown == i && pager.bytes_written == output_len {
                self.external_process = Some(
                    ExternalProcess::Pager(
                        Pager { stdin: false, bytes_written: pager.bytes_written },
                    ),
                );
            }
        }
    }

    /// Bytes were read from the standard error of a stage. An empty slice means that it is closed.
    pub fn handle_stderr(&mut self, i: usize, buf: &[u8])
        requires
            i < old(self)@.execution.pipeline.len(),
            old(self)@.execution.pipeline[i as int].eoutput.len() + buf@.len()
                <= bytes::max_buffer_len(),
        ensures
            final(self)@ == old(self)@.executing(
                old(self)@.execution.read_error(i as int, buf@),
            ),
            final(self).options == old(self).options,
            old(self)@.valid() ==> final(self)@.valid(),
    {
        let stage = self.execution.stage_mut(i);
        if buf.len() > 0 {
            stage.eoutput.push_slice(buf);
        } else {
            // Stderr is closed.
            stage.stderr = false;
        }
    }

    /// Bytes were written to the standard input of the pager. Zero bytes mean that it is closed.
    pub fn handle_pager_stdin(&mut self, bytes_written: usize)
        requires
            old(self)@.running(),
            old(self)@.external matches Some(ExternalProcess::Pager(pager)) ==> pager.bytes_written
                + bytes_written <= usize::MAX,
        ensures
            final(self)@ == old(self)@.pager_fed(bytes_written),
            final(self)@.running(),
            final(self).options == old(self).options,
    {
        let pager = match self.external_process {
            Some(ExternalProcess::Pager(pager)) => pager,
            _ => {
                return;
            },
        };
        let mut stdin = pager.stdin;
        let total_written: usize = pager.bytes_written + bytes_written;
        if bytes_written == 0 {
            stdin = false;
        } else if let Some(exec) = self.execution.get_stage(
            self.pipeline[self.shown_stage_index].id,
        ) {
            if total_written == exec.output.len() && !exec.stdout {
                stdin = false;
            }
        }
        self.external_process = Some(
            ExternalProcess::Pager(Pager { stdin, bytes_written: total_written }),
        );
    }

    /// A pager was launched. Nothing was written to it yet.
    pub fn pager_launched(&mut self)
        requires
            old(self)@.external is None,
        ensures
            final(self)@ == (AppView {
                external: Some(
                    ExternalProcess::Pager(Pager { stdin: true, bytes_written: 0 }),
                ),
                ..old(self)@
            }),
            final(self).options == old(self).options,
            old(self)@.valid() ==> final(self)@.valid(),
    {
        self.external_process = Some(
            ExternalProcess::Pager(Pager { stdin: true, bytes_written: 0 }),
        );
    }

    /// The pager has ended.
    pub fn handle_pager_exit(&mut self)
        requires
            old(self)@.external matches Some(ExternalProcess::Pager(_)),
        ensures
            final(self)@ == (AppView { external: None, ..old(self)@ }),
            final(self).options == old(self).options,
            old(self)@.valid() ==> final(self)@.valid(),
    {
        self.external_process = None;
    }

    /// The editor has ended. There is a command if that went well.
    pub fn handle_editor_exit(&mut self, command: Option<String>)
        requires
            old(self)@.running(),
            old(self)@.external == Some(ExternalProcess::Editor),
        ensures
            final(self)@ == old(self)@.edited(
                match command {
                    Some(command) => Some(command@),
                    None => None,
                },
            ),
            final(self)@.running(),
            final(self).options == old(self).options,
    {
        let ghost before = self@;
        self.external_process = None;
        if let Some(command) = command {
            self.pipeline[self.focused_stage].input = Input::new(command);
            proof {
                let after = self@.pipeline;
                let stage = StageView {
                    field: input::fresh(command@),
                    ..before.pipeline[before.focused as int]
                };
                assert(after =~= before.pipeline.update(before.focused as int, stage));
                assert forall|i: int| 0 <= i < after.len() implies (#[trigger] after[i]).id
                    == before.pipeline[i].id by {}
            }
        }
    }

    /// Whether the terminal belongs to the application, so that it draws there.
    pub fn shows_screen(&self) -> (r: bool)
        ensures
            r == (self@.external is None),
    {
        self.external_process.is_none()
    }

    /// Starts the pending execution, if there is one and all interrupted stages are finished.
    pub fn start_pending(&mut self) -> (plan: Option<StartPlan>)
        requires
            old(self)@.running(),
        ensures
            old(self)@.can_start() ==> {
                &&& final(self)@ == old(self)@.with_execution()
                &&& plan matches Some(plan) && plan@ == pipeline::start_plan(
                    old(self)@.pending->0,
                    old(self)@.offered(),
                )
            },
            !old(self)@.can_start() ==> final(self)@ == old(self)@ && plan is None,
            final(self)@.running(),
            final(self).options == old(self).options,
    {
        if self.pending_execution.is_some() && self.execution.interrupted_stages_are_finished() {
            self.execute_pending()
        } else {
            None
        }
    }
}

/// Something that happened to a stage.
pub enum StageEvent {
    Exit(ExitStatus),
    /// This many bytes were written to the standard input.
    Stdin(usize),
    /// This many bytes were read from the standard output into the buffer.
    Stdout(Vec<u8>, usize),
    /// This many bytes were read from the standard error into the buffer.
    Stderr(Vec<u8>, usize),
}

/// Something that happened to the pager.
pub enum PagerEvent {
    Exit(ExitStatus),
    /// This many bytes were written to the standard input.
    Stdin(usize),
}

/// Something that happened.
pub enum UiEvent {
    Term(Event),
    Stage(usize, StageEvent),
    Pager(PagerEvent),
    /// The editor has ended, and left a command if that went well.
    EditorFinished(Option<String>),
}

impl AppView {
    /// Whether an event can happen now: it comes from something that exists, it fills no more of
    /// its buffer than there is, and what it adds up to can be counted and kept.
    pub open spec fn accepts(self, event: UiEvent) -> bool {
        let stages = self.execution.pipeline;
        match event {
            UiEvent::Term(event) => self.event_result(event).1 matches Some(action)
                ==> self.can_act(action),
            UiEvent::Stage(i, event) => i < stages.len() && match event {
                StageEvent::Exit(_) => stages[i as int].status is Running,
                StageEvent::Stdin(n) => (n > 0 ==> i > 0)
                    && stages[i as int].bytes_written_to_stdin + n <= usize::MAX,
                StageEvent::Stdout(buf, n) => n <= buf@.len() && stages[i as int].output.len() + n
                    <= bytes::max_buffer_len(),
                StageEvent::Stderr(buf, n) => n <= buf@.len() && stages[i as int].eoutput.len() + n
                    <= bytes::max_buffer_len(),
            },
            UiEvent::Pager(PagerEvent::Exit(_)) => self.external matches Some(
                ExternalProcess::Pager(_),
            ),
            UiEvent::Pager(PagerEvent::Stdin(n)) => self.external matches Some(
                ExternalProcess::Pager(pager),
            ) ==> pager.bytes_written + n <= usize::MAX,
            UiEvent::EditorFinished(_) => self.external == Some(ExternalProcess::Editor),
        }
    }

    /// The application after an event.
    pub open spec fn after(self, event: UiEvent) -> AppView {
        match event {
            UiEvent::Term(event) => match self.event_result(event) {
                (state, Some(action)) => state.acted(action),
                (state, None) => state,
            },
            UiEvent::Stage(i, StageEvent::Exit(status)) => self.executing(
                self.execution.terminated(i as int, status),
            ),
            UiEvent::Stage(i, StageEvent::Stdin(n)) => self.executing(
                self.execution.fed(i as int, n),
            ),
            UiEvent::Stage(i, StageEvent::Stdout(buf, n)) => self.output_read(
                i as int,
                buf@.take(n as int),
            ),
            UiEvent::Stage(i, StageEvent::Stderr(buf, n)) => self.executing(
                self.execution.read_error(i as int, buf@.take(n as int)),
            ),
            UiEvent::Pager(PagerEvent::Exit(_)) => AppView { external: None, ..self },
            UiEvent::Pager(PagerEvent::Stdin(n)) => self.pager_fed(n),
            UiEvent::EditorFinished(command) => self.edited(
                match command {
                    Some(command) => Some(command@),
                    None => None,
                },
            ),
        }
    }

    /// Whether `effect` is what has to be done outside of the application after an event. Only
    /// events of the terminal have effects.
    pub open spec fn event_has_effect(self, event: UiEvent, effect: Effect) -> bool {
        match event {
            UiEvent::Term(event) => match self.event_result(event) {
                (state, Some(action)) => state.has_effect(action, effect),
                (_, None) => effect is Nothing,
            },
            _ => effect is Nothing,
        }
    }
}

impl App {
    /// Reacts to an event.
    pub fn handle_ui_event(&mut self, event: UiEvent) -> (effect: Effect)
        requires
            old(self)@.running(),
            old(self)@.accepts(event),
        ensures
            final(self)@ == old(self)@.after(event),
            final(self)@.valid(),
            event !is Term ==> final(self)@.running(),
            final(self).options == old(self).options,
            old(self)@.event_has_effect(event, effect),
            event matches UiEvent::Term(event) ==> match old(self)@.event_result(event) {
                (state, Some(action)) => state.types_plain_characters(action, final(self)@),
                (_, None) => true,
            },
    {
        match event {
            UiEvent::Term(event) => {
                return self.handle_input(event);
            },
            UiEvent::Stage(i, StageEvent::Exit(status)) => self.handle_process_terminated(
                i,
                status,
            ),
            UiEvent::Stage(i, StageEvent::Stdin(n)) => self.handle_stdin(i, n),
            UiEvent::Stage(i, StageEvent::Stdout(buf, n)) => {
                let data = slice_subrange(buf.as_slice(), 0, n);
                assert(data@ == buf@.take(n as int));
                self.handle_stdout(i, data);
            },
            UiEvent::Stage(i, StageEvent::Stderr(buf, n)) => {
                let data = slice_subrange(buf.as_slice(), 0, n);
                assert(data@ == buf@.take(n as int));
                self.handle_stderr(i, data);
            },
            UiEvent::Pager(PagerEvent::Stdin(n)) => self.handle_pager_stdin(n),
            UiEvent::Pager(PagerEvent::Exit(_)) => self.handle_pager_exit(),
            UiEvent::EditorFinished(command) => self.handle_editor_exit(command),
        }
        Effect::Nothing
    }
}

/// Something to wait for.
#[derive(Debug, Clone, Copy, PartialEq, Eq, Structural)]
pub enum IoRequest {
    /// An event of the terminal.
    ReadTerminal,
    /// The end of the editor.
    WaitEditor,
    /// The end of the pager.
    WaitPager,
    /// The end of the process of a stage.
    WaitExit(usize),
    /// The output of the stage before this one, from a position on, is written to the standard
    /// input of this stage.
    WriteStdin { stage: usize, from: usize },
    /// The standard output of a stage is read.
    ReadStdout(usize),
    /// The standard error of a stage is read.
    ReadStderr(usize),
    /// The output of a stage, from a position on, is written to the pager.
    WritePager { stage: usize, from: usize },
}

/// One request if the condition holds, otherwise none.
pub open spec fn only_if(condition: bool, request: IoRequest) -> Seq<IoRequest> {
    if condition {
        seq![request]
    } else {
        Seq::empty()
    }
}

impl AppView {
    /// What to wait for from the terminal and from external programs.
    pub open spec fn outer_requests(self) -> Seq<IoRequest> {
        match self.external {
            None => seq![IoRequest::ReadTerminal],
            Some(ExternalProcess::Editor) => seq![IoRequest::WaitEditor],
            Some(ExternalProcess::Pager(_)) => seq![IoRequest::WaitPager],
        }
    }

    /// Whether there is output of the stage at `i` to write to the pager.
    pub open spec fn feeds_pager(self, i: int) -> bool {
        &&& self.shown_execution() matches Some(shown) && shown == i
        &&& self.external matches Some(ExternalProcess::Pager(pager)) && pager.stdin
            && pager.bytes_written < self.execution.pipeline[i].output.len()
    }

    /// The number of bytes that the pager has got.
    pub open spec fn pager_position(self) -> usize {
        match self.external {
            Some(ExternalProcess::Pager(pager)) => pager.bytes_written,
            _ => 0,
        }
    }

    /// What to wait for from the stage at `i`.
    pub open spec fn stage_requests(self, i: int) -> Seq<IoRequest> {
        let stage = self.execution.pipeline[i];
        let at = i as usize;
        let written = stage.bytes_written_to_stdin;
        only_if(stage.status is Running, IoRequest::WaitExit(at)) + only_if(
            i > 0 && stage.stdin && written < self.execution.pipeline[i - 1].output.len(),
            IoRequest::WriteStdin { stage: at, from: written },
        ) + only_if(stage.stdout, IoRequest::ReadStdout(at)) + only_if(
            stage.stderr,
            IoRequest::ReadStderr(at),
        ) + only_if(
            self.feeds_pager(i),
            IoRequest::WritePager { stage: at, from: self.pager_position() },
        )
    }

    /// What to wait for from the first `n` stages.
    pub open spec fn requests_of(self, n: int) -> Seq<IoRequest>
        decreases n,
    {
        if n <= 0 {
            Seq::empty()
        } else {
            self.requests_of(n - 1) + self.stage_requests(n - 1)
        }
    }

    /// All that is to be waited for.
    pub open spec fn io_requests(self) -> Seq<IoRequest> {
        self.outer_requests() + self.requests_of(self.execution.pipeline.len() as int)
    }
}

/// Adds a request if the condition holds.
fn push_if(requests: &mut Vec<IoRequest>, condition: bool, request: IoRequest)
    ensures
        final(requests)@ == old(requests)@ + only_if(condition, request),
{
    if condition {
        requests.push(request);
    }
    assert(requests@ =~= old(requests)@ + only_if(condition, request));
}

impl App {
    /// Whether there is output of the stage at `i` to write to the pager.
    fn has_output_for_pager(&self, i: usize) -> (r: bool)
        requires
            self@.running(),
            i < self@.execution.pipeline.len(),
        ensures
            r == self@.feeds_pager(i as int),
    {
        match self.execution.get_index(self.pipeline[self.shown_stage_index].id) {
            Some(shown) => match self.external_process {
                Some(ExternalProcess::Pager(pager)) => shown == i && pager.stdin
                    && pager.bytes_written < self.execution.stage(i).output.len(),
                _ => false,
            },
            None => false,
        }
    }

    /// What to wait for from the stage at `i`.
    fn stage_requests(&self, i: usize) -> (r: Vec<IoRequest>)
        requires
            self@.running(),
            i < self@.execution.pipeline.len(),
        ensures
            r@ == self@.stage_requests(i as int),
    {
        let stage = self.execution.stage(i);
        let written: usize = stage.bytes_written_to_stdin;
        let feeds_stdin = i > 0 && stage.stdin && written < self.execution.stage(
            i - 1,
        ).output.len();
        let pager_position: usize = match self.external_process {
            Some(ExternalProcess::Pager(pager)) => pager.bytes_written,
            _ => 0,
        };
        let running = matches!(stage.status, ProcessStatus::Running);
        let mut requests: Vec<IoRequest> = Vec::new();
        push_if(&mut requests, running, IoRequest::WaitExit(i));
        assert(requests@ =~= only_if(running, IoRequest::WaitExit(i)));
        push_if(&mut requests, feeds_stdin, IoRequest::WriteStdin { stage: i, from: written });
        push_if(&mut requests, stage.stdout, IoRequest::ReadStdout(i));
        push_if(&mut requests, stage.stderr, IoRequest::ReadStderr(i));
        push_if(
            &mut requests,
            self.has_output_for_pager(i),
            IoRequest::WritePager { stage: i, from: pager_position },
        );
        requests
    }

    /// All that is to be waited for. Whatever comes first is the next event.
    pub fn io_requests(&self) -> (r: Vec<IoRequest>)
        requires
            self@.running(),
        ensures
            r@ == self@.io_requests(),
    {
        let first = match self.external_process {
            None => IoRequest::ReadTerminal,
            Some(ExternalProcess::Editor) => IoRequest::WaitEditor,
            Some(ExternalProcess::Pager(_)) => IoRequest::WaitPager,
        };
        let mut requests: Vec<IoRequest> = vec![first];
        let count: usize = self.execution.stage_count();
        let mut i: usize = 0;
        assert(requests@ =~= self@.outer_requests() + self@.requests_of(0));
        while i < count
            invariant
                self@.running(),
                i <= count == self@.execution.pipeline.len(),
                requests@ == self@.outer_requests() + self@.requests_of(i as int),
            decreases count - i,
        {
            let mut more = self.stage_requests(i);
            requests.append(&mut more);
            i = i + 1;
            assert(requests@ =~= self@.outer_requests() + self@.requests_of(i as int));
        }
        requests
    }
}

/// How an attempt to write to a process went.
pub enum WriteOutcome {
    Written(usize),
    /// The process does not read any more.
    BrokenPipe,
    Failed,
}

/// The number of bytes that a write counts for, if it is an event at all.
pub open spec fn count_of(outcome: WriteOutcome) -> Option<usize> {
    match outcome {
        WriteOutcome::Written(n) => Some(n),
        WriteOutcome::BrokenPipe => Some(0usize),
        WriteOutcome::Failed => None,
    }
}

/// The number of bytes that a write counts for. A process that does not read any more is treated
/// as one that closed its input; any other failure is none of an event.
pub fn counted(outcome: WriteOutcome) -> (r: Option<usize>)
    ensures
        r == count_of(outcome),
{
    match outcome {
        WriteOutcome::Written(n) => Some(n),
        WriteOutcome::BrokenPipe => Some(0),
        WriteOutcome::Failed => None,
    }
}

/// What the program leaves behind on its standard output.
pub enum FinalOutput {
    Nothing,
    Text(String),
    Bytes(BytesSlice),
    /// The program fails.
    Cancelled,
}

/// Whether `left` is what the program leaves behind for the given result.
pub open spec fn leaves_behind(result: QuitView, left: FinalOutput) -> bool {
    match result {
        QuitView::Success => left is Nothing,
        QuitView::Cancel => left is Cancelled,
        QuitView::Pipeline(commands) => left matches FinalOutput::Text(line) && line@
            == text::joined(commands).push('\n'),
        QuitView::Output(output) => left matches FinalOutput::Bytes(slice) && bytes::covered(slice)
            == output,
    }
}

/// What to leave behind: the pipeline as one line, or the output as it is.
pub fn final_output(result: QuitResult) -> (r: FinalOutput)
    ensures
        leaves_behind(result@, r),
{
    match result {
        QuitResult::Success => FinalOutput::Nothing,
        QuitResult::Cancel => FinalOutput::Cancelled,
        QuitResult::Pipeline(commands) => {
            let mut line = text::join_commands(&commands);
            line.push('\n');
            FinalOutput::Text(line)
        },
        QuitResult::Output(output) => FinalOutput::Bytes(output),
    }
}

impl ExecutionView {
    /// Whether input flows into the stage at `i`: it has got no more than there is, and where its
    /// input is open, there is more to come. The first stage has no input.
    pub open spec fn flows_into(self, i: int) -> bool {
        let stage = self.pipeline[i];
        if i == 0 {
            !stage.stdin
        } else {
            let previous = self.pipeline[i - 1];
            &&& stage.bytes_written_to_stdin <= previous.output.len()
            &&& stage.stdin ==> previous.stdout || stage.bytes_written_to_stdin
                < previous.output.len()
        }
    }

    /// Whether input flows into all stages.
    pub open spec fn flows(self) -> bool {
        forall|i: int| 0 <= i < self.pipeline.len() ==> #[trigger] self.flows_into(i)
    }
}

/// Input flows in a new execution, unless the last stage that was reused has closed its output
/// without any and another stage comes behind it.
pub proof fn law_input_flows_from_the_start(
    pending: Seq<pipeline::PendingStageView>,
    execution: ExecutionView,
)
    requires
        execution.flows(),
        ({
            let n = pipeline::reusable_count(pending, execution.live());
            0 < n < pending.len() ==> {
                let last = execution.pipeline[n - 1];
                last.stdout || last.output.len() > 0
            }
        }),
    ensures
        pipeline::executed(pending, execution.live()).flows(),
{
    let live = execution.live();
    let n = pipeline::reusable_count(pending, live);
    pipeline::law_reuse_is_the_longest_matching_prefix(pending, live, n);
    let after = pipeline::executed(pending, live);
    assert forall|i: int| 0 <= i < after.pipeline.len() implies #[trigger] after.flows_into(i) by {
        if i < n {
            assert(execution.flows_into(i));
        }
    }
}

/// Every event keeps input flowing, as long as no write takes more bytes than it was given.
pub proof fn law_events_keep_input_flowing(state: AppView, event: UiEvent)
    requires
        state.running(),
        state.accepts(event),
        state.execution.flows(),
        event matches UiEvent::Stage(i, StageEvent::Stdin(n)) ==> n == 0
            || state.execution.pipeline[i as int].bytes_written_to_stdin + n
            <= state.execution.pipeline[i - 1].output.len(),
    ensures
        state.after(event).execution.flows(),
{
    let before = state.execution;
    let after = state.after(event).execution;
    assert forall|i: int| 0 <= i < after.pipeline.len() implies #[trigger] after.flows_into(i) by {
        assert(before.flows_into(i));
    }
}

/// The pager gets all of the shown output: unless the pager itself takes no more, its input is
/// closed only once it has got all that was read for the shown stage, and nothing more will come.
pub proof fn law_pager_gets_all_of_the_shown_output(state: AppView, event: UiEvent)
    requires
        state.running(),
        state.accepts(event),
        state.external matches Some(ExternalProcess::Pager(pager)) && pager.stdin,
        !(event matches UiEvent::Pager(PagerEvent::Stdin(n)) && n == 0),
    ensures
        state.after(event).external matches Some(ExternalProcess::Pager(pager)) ==> !pager.stdin ==> {
            let shown = state.after(event).shown_execution();
            let stages = state.after(event).execution.pipeline;
            &&& shown is Some
            &&& pager.bytes_written == stages[shown->0 as int].output.len()
            &&& !stages[shown->0 as int].stdout
        },
{
}

/// A stage that was interrupted is given no more input.
pub proof fn law_interrupted_stages_are_not_fed(state: AppView, i: int)
    requires
        state.valid(),
        state.execution.interrupted_since <= i < state.execution.pipeline.len(),
    ensures
        forall|request: IoRequest| #[trigger]
            state.stage_requests(i).contains(request) ==> request !is WriteStdin,
{
    assert(!state.execution.pipeline[i].stdin);
}

} // verus!
