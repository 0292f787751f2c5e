//! Laws of the reactions to what happens.

use crate::app::{AppView, Effect, ExternalProcess, Pager, QuitView};
use crate::event_loop;
use crate::event_loop::{FinalOutput, IoRequest, PagerEvent, StageEvent, UiEvent, WriteOutcome};
use crate::key_laws;
use crate::pipeline::{ExecutionView, ExitStatus, ProcessStatus, StageExecutionView, StageView};
use crate::text;
use crate::ui::key::Event;
use vstd::prelude::*;

verus! {

/// What an event has read from the standard output of the stage at `j`.
pub open spec fn output_in(event: UiEvent, j: int) -> Seq<u8> {
    match event {
        UiEvent::Stage(i, StageEvent::Stdout(buf, n)) => if i == j {
            buf@.take(n as int)
        } else {
            Seq::empty()
        },
        _ => Seq::empty(),
    }
}

/// What an event has read from the standard error of the stage at `j`.
pub open spec fn error_output_in(event: UiEvent, j: int) -> Seq<u8> {
    match event {
        UiEvent::Stage(i, StageEvent::Stderr(buf, n)) => if i == j {
            buf@.take(n as int)
        } else {
            Seq::empty()
        },
        _ => Seq::empty(),
    }
}

/// Every event adds what it has read to the output of the stage that it has read it from, and
/// changes no other output. The stages and their commands stay.
pub proof fn law_event_adds_what_it_has_read(state: AppView, event: UiEvent, j: int)
    requires
        state.running(),
        state.accepts(event),
        0 <= j < state.execution.pipeline.len(),
    ensures
        ({
            let before = state.execution;
            let after = state.after(event).execution;
            &&& after.index == before.index
            &&& after.pipeline.len() == before.pipeline.len()
            &&& after.pipeline[j].command == before.pipeline[j].command
            &&& after.pipeline[j].output == before.pipeline[j].output + output_in(event, j)
            &&& after.pipeline[j].eoutput == before.pipeline[j].eoutput + error_output_in(event, j)
        }),
{
    let before = state.execution.pipeline[j];
    assert(before.output + Seq::<u8>::empty() =~= before.output);
    assert(before.eoutput + Seq::<u8>::empty() =~= before.eoutput);
    match event {
        UiEvent::Stage(i, StageEvent::Stdout(buf, n)) => {
            if n == 0 {
                assert(buf@.take(0) =~= Seq::empty());
            }
        },
        UiEvent::Stage(i, StageEvent::Stderr(buf, n)) => {
            if n == 0 {
                assert(buf@.take(0) =~= Seq::empty());
            }
        },
        UiEvent::Term(event) => {
            let (asked, action) = state.event_result(event);
            assert(asked.execution == state.execution);
        },
        _ => {},
    }
}

/// The application after some events, one after the other.
pub open spec fn state_after(state: AppView, events: Seq<UiEvent>) -> AppView
    decreases events.len(),
{
    if events.len() == 0 {
        state
    } else {
        state_after(state, events.drop_last()).after(events.last())
    }
}

/// Whether each of the events can happen when it is its turn.
pub open spec fn can_happen(state: AppView, events: Seq<UiEvent>) -> bool
    decreases events.len(),
{
    events.len() > 0 ==> {
        let before = state_after(state, events.drop_last());
        &&& can_happen(state, events.drop_last())
        &&& before.running()
        &&& before.accepts(events.last())
    }
}

/// All that some events have read from the standard output of the stage at `j`, in order.
pub open spec fn output_in_all(events: Seq<UiEvent>, j: int) -> Seq<u8>
    decreases events.len(),
{
    if events.len() == 0 {
        Seq::empty()
    } else {
        output_in_all(events.drop_last(), j) + output_in(events.last(), j)
    }
}

/// All that some events have read from the standard error of the stage at `j`, in order.
pub open spec fn error_output_in_all(events: Seq<UiEvent>, j: int) -> Seq<u8>
    decreases events.len(),
{
    if events.len() == 0 {
        Seq::empty()
    } else {
        error_output_in_all(events.drop_last(), j) + error_output_in(events.last(), j)
    }
}

/// However events follow each other, the output of a stage is all that was read from it, in the
/// order in which it was read: nothing is lost, and nothing gets to another stage.
pub proof fn law_output_is_all_that_was_read(state: AppView, events: Seq<UiEvent>, j: int)
    requires
        can_happen(state, events),
        0 <= j < state.execution.pipeline.len(),
    ensures
        ({
            let before = state.execution.pipeline;
            let after = state_after(state, events).execution.pipeline;
            &&& after.len() == before.len()
            &&& after[j].command == before[j].command
            &&& after[j].output == before[j].output + output_in_all(events, j)
            &&& after[j].eoutput == before[j].eoutput + error_output_in_all(events, j)
        }),
    decreases events.len(),
{
    let before = state.execution.pipeline[j];
    if events.len() == 0 {
        assert(before.output + Seq::<u8>::empty() =~= before.output);
        assert(before.eoutput + Seq::<u8>::empty() =~= before.eoutput);
    } else {
        let rest = events.drop_last();
        let last = events.last();
        law_output_is_all_that_was_read(state, rest, j);
        law_event_adds_what_it_has_read(state_after(state, rest), last, j);
        assert(before.output + (output_in_all(rest, j) + output_in(last, j)) =~= (before.output
            + output_in_all(rest, j)) + output_in(last, j));
        assert(before.eoutput + (error_output_in_all(rest, j) + error_output_in(last, j)) =~= (
        before.eoutput + error_output_in_all(rest, j)) + error_output_in(last, j));
    }
}

/// Whether two executions differ at most in the stage at `i`.
pub open spec fn same_but_for(a: ExecutionView, b: ExecutionView, i: int) -> bool {
    &&& a.index == b.index
    &&& a.interrupted_since == b.interrupted_since
    &&& a.pipeline.len() == b.pipeline.len()
    &&& forall|j: int|
        #![trigger a.pipeline[j]]
        #![trigger b.pipeline[j]]
        0 <= j < a.pipeline.len() && j != i ==> a.pipeline[j] == b.pipeline[j]
}

/// The end of a process is noted for its stage, with its status, and changes nothing else.
pub proof fn law_exit_is_noted(state: AppView, i: usize, status: ExitStatus)
    requires
        i < state.execution.pipeline.len(),
    ensures
        ({
            let after = state.after(UiEvent::Stage(i, StageEvent::Exit(status)));
            &&& after == AppView { execution: after.execution, ..state }
            &&& same_but_for(state.execution, after.execution, i as int)
            &&& after.execution.pipeline[i as int] == StageExecutionView {
                status: ProcessStatus::Exited(status),
                ..state.execution.pipeline[i as int]
            }
        }),
{
}

/// Bytes that were read from a stage are added behind its output. Its input, its state and all
/// other stages stay as they are, and so does the pager.
pub proof fn law_reading_adds_to_one_output(state: AppView, i: usize, buf: Vec<u8>, n: usize)
    requires
        i < state.execution.pipeline.len(),
        0 < n <= buf@.len(),
    ensures
        ({
            let before = state.execution.pipeline[i as int];
            let read = state.after(UiEvent::Stage(i, StageEvent::Stdout(buf, n)));
            let read_error = state.after(UiEvent::Stage(i, StageEvent::Stderr(buf, n)));
            &&& read == AppView { execution: read.execution, ..state }
            &&& same_but_for(state.execution, read.execution, i as int)
            &&& read.execution.pipeline[i as int] == StageExecutionView {
                output: before.output + buf@.subrange(0, n as int),
                ..before
            }
            &&& read_error == AppView { execution: read_error.execution, ..state }
            &&& same_but_for(state.execution, read_error.execution, i as int)
            &&& read_error.execution.pipeline[i as int] == StageExecutionView {
                eoutput: before.eoutput + buf@.subrange(0, n as int),
                ..before
            }
        }),
{
}

/// The end of the output of a stage is noted. The input of the next stage is closed with it if and
/// only if that stage has got all of the output; nothing else of any stage changes.
pub proof fn law_end_of_output_is_passed_on(state: AppView, i: usize, buf: Vec<u8>)
    requires
        i < state.execution.pipeline.len(),
    ensures
        ({
            let before = state.execution.pipeline;
            let after = state.after(UiEvent::Stage(i, StageEvent::Stdout(buf, 0)));
            let stages = after.execution.pipeline;
            let next = i + 1;
            &&& after == AppView { execution: after.execution, external: after.external, ..state }
            &&& after.execution == ExecutionView { pipeline: stages, ..state.execution }
            &&& stages.len() == before.len()
            &&& stages[i as int] == StageExecutionView { stdout: false, ..before[i as int] }
            &&& next < before.len() ==> stages[next] == StageExecutionView {
                stdin: before[next].stdin && before[next].bytes_written_to_stdin
                    != before[i as int].output.len(),
                ..before[next]
            }
            &&& forall|j: int|
                0 <= j < before.len() && j != i && j != next ==> #[trigger] stages[j] == before[j]
        }),
{
    assert(buf@.take(0) =~= Seq::empty());
}

/// The end of the error output of a stage is noted, and changes nothing else.
pub proof fn law_end_of_error_output_is_noted(state: AppView, i: usize, buf: Vec<u8>)
    requires
        i < state.execution.pipeline.len(),
    ensures
        ({
            let after = state.after(UiEvent::Stage(i, StageEvent::Stderr(buf, 0)));
            &&& after == AppView { execution: after.execution, ..state }
            &&& same_but_for(state.execution, after.execution, i as int)
            &&& after.execution.pipeline[i as int] == StageExecutionView {
                stderr: false,
                ..state.execution.pipeline[i as int]
            }
        }),
{
    assert(buf@.take(0) =~= Seq::empty());
}

/// Bytes that were written to a stage are counted. Its input is closed if it takes no more, or if
/// it has got all that the stage before it will ever put out; otherwise it stays as it was.
pub proof fn law_written_input_is_counted(state: AppView, i: usize, n: usize)
    requires
        state.accepts(UiEvent::Stage(i, StageEvent::Stdin(n))),
    ensures
        ({
            let before = state.execution.pipeline[i as int];
            let after = state.after(UiEvent::Stage(i, StageEvent::Stdin(n)));
            let stage = after.execution.pipeline[i as int];
            let previous = state.execution.pipeline[i - 1];
            &&& after == AppView { execution: after.execution, ..state }
            &&& same_but_for(state.execution, after.execution, i as int)
            &&& stage == StageExecutionView {
                stdin: stage.stdin,
                bytes_written_to_stdin: stage.bytes_written_to_stdin,
                ..before
            }
            &&& stage.bytes_written_to_stdin == before.bytes_written_to_stdin + n
            &&& n == 0 ==> !stage.stdin
            &&& n > 0 ==> (stage.stdin <==> before.stdin && (previous.stdout
                || stage.bytes_written_to_stdin != previous.output.len()))
        }),
{
}

/// Whether the application is the same but for the pager.
pub open spec fn same_but_for_the_pager(a: AppView, b: AppView) -> bool {
    a == AppView { external: a.external, ..b }
}

/// Bytes that were written to the pager are counted. Its input is closed if it takes no more, or
/// if it has got all that the shown stage will ever put out; otherwise it stays as it was.
pub proof fn law_written_pages_are_counted(state: AppView, pager: Pager, n: usize)
    requires
        state.external == Some(ExternalProcess::Pager(pager)),
        pager.bytes_written + n <= usize::MAX,
    ensures
        ({
            let after = state.after(UiEvent::Pager(PagerEvent::Stdin(n)));
            let id = state.pipeline[state.shown as int].id;
            let shown = state.execution.pipeline[state.execution.index[id] as int];
            let has_all = state.execution.index.dom().contains(id) && pager.bytes_written + n
                == shown.output.len() && !shown.stdout;
            &&& same_but_for_the_pager(after, state)
            &&& after.external matches Some(ExternalProcess::Pager(fed)) && {
                &&& fed.bytes_written == pager.bytes_written + n
                &&& fed.stdin <==> pager.stdin && n > 0 && !has_all
            }
        }),
{
}

/// The pager is closed with the output of the shown stage if and only if it has got all of it. The
/// end of the output of another stage does not concern it, nor does any editor.
pub proof fn law_pager_is_closed_with_the_shown_output(state: AppView, i: usize, buf: Vec<u8>)
    requires
        i < state.execution.pipeline.len(),
    ensures
        ({
            let after = state.after(UiEvent::Stage(i, StageEvent::Stdout(buf, 0)));
            let id = state.pipeline[state.shown as int].id;
            let is_shown = state.execution.index.dom().contains(id) && state.execution.index[id]
                == i;
            &&& state.external matches Some(ExternalProcess::Pager(pager)) ==> after.external
                == Some(
                ExternalProcess::Pager(
                    Pager {
                        stdin: pager.stdin && !(is_shown && pager.bytes_written
                            == state.execution.pipeline[i as int].output.len()),
                        bytes_written: pager.bytes_written,
                    },
                ),
            )
            &&& !(state.external matches Some(ExternalProcess::Pager(_))) ==> after.external
                == state.external
        }),
{
    assert(buf@.take(0) =~= Seq::empty());
}

/// A pager that has ended gives the terminal back, and leaves all else as it is.
pub proof fn law_pager_gives_the_terminal_back(state: AppView, status: ExitStatus)
    ensures
        ({
            let after = state.after(UiEvent::Pager(PagerEvent::Exit(status)));
            &&& after.external is None
            &&& same_but_for_the_pager(after, state)
        }),
{
}

/// When the editor ends with a command, that is the command of the focused stage, with the cursor
/// behind it. The stage keeps its identifier and stays enabled or disabled, and every other stage
/// stays as it is. Without a command all stages stay. The terminal is given back either way.
pub proof fn law_edited_command_is_the_focused_one(state: AppView, command: String)
    requires
        state.running(),
    ensures
        ({
            let after = state.after(UiEvent::EditorFinished(Some(command)));
            let cancelled = state.after(UiEvent::EditorFinished(None));
            let at = state.focused as int;
            &&& after == AppView { pipeline: after.pipeline, external: None, ..state }
            &&& after.pipeline.len() == state.pipeline.len()
            &&& forall|i: int|
                0 <= i < state.pipeline.len() && i != at ==> #[trigger] after.pipeline[i]
                    == state.pipeline[i]
            &&& after.pipeline[at].field.text == command@
            &&& after.pipeline[at].field.cursor == command@.len()
            &&& after.pipeline[at].id == state.pipeline[at].id
            &&& after.pipeline[at].enabled == state.pipeline[at].enabled
            &&& cancelled == AppView { external: None, ..state }
        }),
{
}

/// Nothing but events of the terminal has effects.
pub proof fn law_only_the_terminal_has_effects(state: AppView, event: UiEvent, effect: Effect)
    requires
        event !is Term,
        state.event_has_effect(event, effect),
    ensures
        effect is Nothing,
{
}

proof fn lemma_contained_in_sum<T>(a: Seq<T>, b: Seq<T>, item: T)
    ensures
        (a + b).contains(item) <==> a.contains(item) || b.contains(item),
{
    if a.contains(item) {
        let i = choose|i: int| 0 <= i < a.len() && a[i] == item;
        assert((a + b)[i] == item);
    }
    if b.contains(item) {
        let i = choose|i: int| 0 <= i < b.len() && b[i] == item;
        assert((a + b)[a.len() + i] == item);
    }
    if (a + b).contains(item) {
        let i = choose|i: int| 0 <= i < (a + b).len() && (a + b)[i] == item;
        if i < a.len() {
            assert(a[i] == item);
        } else {
            assert(b[i - a.len()] == item);
        }
    }
}

proof fn lemma_only_if(condition: bool, request: IoRequest, item: IoRequest)
    ensures
        event_loop::only_if(condition, request).contains(item) <==> condition && item
            == request,
{
    if condition {
        assert(seq![request][0] == request);
    }
}

/// What is waited for from one stage, in words of the stage.
spec fn waits_for(state: AppView, i: int, request: IoRequest) -> bool {
    let stage = state.execution.pipeline[i];
    match request {
        IoRequest::WaitExit(at) => at == i && stage.status is Running,
        IoRequest::WriteStdin { stage: at, from } => {
            &&& at == i
            &&& i > 0
            &&& stage.stdin
            &&& from == stage.bytes_written_to_stdin
            &&& from < state.execution.pipeline[i - 1].output.len()
        },
        IoRequest::ReadStdout(at) => at == i && stage.stdout,
        IoRequest::ReadStderr(at) => at == i && stage.stderr,
        IoRequest::WritePager { stage: at, from } => {
            let id = state.pipeline[state.shown as int].id;
            &&& at == i
            &&& state.execution.index.dom().contains(id)
            &&& state.execution.index[id] == i
            &&& state.external matches Some(ExternalProcess::Pager(pager)) && pager.stdin
                && pager.bytes_written == from && from < stage.output.len()
        },
        _ => false,
    }
}

proof fn lemma_stage_requests(state: AppView, i: int, request: IoRequest)
    requires
        0 <= i <= usize::MAX,
    ensures
        state.stage_requests(i).contains(request) <==> waits_for(state, i, request),
{
    let stage = state.execution.pipeline[i];
    let at = i as usize;
    let written = stage.bytes_written_to_stdin;
    let feeds = i > 0 && stage.stdin && written < state.execution.pipeline[i - 1].output.len();
    let exit = IoRequest::WaitExit(at);
    let write = IoRequest::WriteStdin { stage: at, from: written };
    let page = IoRequest::WritePager { stage: at, from: state.pager_position() };
    let a = event_loop::only_if(stage.status is Running, exit);
    let b = event_loop::only_if(feeds, write);
    let c = event_loop::only_if(stage.stdout, IoRequest::ReadStdout(at));
    let d = event_loop::only_if(stage.stderr, IoRequest::ReadStderr(at));
    let e = event_loop::only_if(state.feeds_pager(i), page);
    lemma_only_if(stage.status is Running, exit, request);
    lemma_only_if(feeds, write, request);
    lemma_only_if(stage.stdout, IoRequest::ReadStdout(at), request);
    lemma_only_if(stage.stderr, IoRequest::ReadStderr(at), request);
    lemma_only_if(state.feeds_pager(i), page, request);
    lemma_contained_in_sum(a, b, request);
    lemma_contained_in_sum(a + b, c, request);
    lemma_contained_in_sum(a + b + c, d, request);
    lemma_contained_in_sum(a + b + c + d, e, request);
}

proof fn lemma_requests_of(state: AppView, n: int, request: IoRequest)
    requires
        0 <= n <= usize::MAX,
    ensures
        state.requests_of(n).contains(request) <==> exists|i: int|
            0 <= i < n && #[trigger] waits_for(state, i, request),
    decreases n,
{
    if n > 0 {
        lemma_requests_of(state, n - 1, request);
        lemma_stage_requests(state, n - 1, request);
        lemma_contained_in_sum(
            state.requests_of(n - 1),
            state.stage_requests(n - 1),
            request,
        );
    }
}

/// All that is waited for, and nothing else is: the terminal, or the program that has taken it
/// over; the end of each process that runs; the output and the error output of each stage as long
/// as they are open; and a write of what a stage, or the pager on the shown stage, has not got yet,
/// as long as it takes any.
pub proof fn law_all_that_can_happen_is_waited_for(state: AppView, request: IoRequest)
    requires
        state.running(),
        state.execution.pipeline.len() <= usize::MAX,
    ensures
        state.io_requests().contains(request) <==> {
            let stages = state.execution.pipeline;
            match request {
                IoRequest::ReadTerminal => state.external is None,
                IoRequest::WaitEditor => state.external == Some(ExternalProcess::Editor),
                IoRequest::WaitPager => state.external matches Some(ExternalProcess::Pager(_)),
                IoRequest::WaitExit(i) => i < stages.len() && stages[i as int].status is Running,
                IoRequest::WriteStdin { stage: i, from } => {
                    &&& 0 < i < stages.len()
                    &&& stages[i as int].stdin
                    &&& from == stages[i as int].bytes_written_to_stdin
                    &&& from < stages[i - 1].output.len()
                },
                IoRequest::ReadStdout(i) => i < stages.len() && stages[i as int].stdout,
                IoRequest::ReadStderr(i) => i < stages.len() && stages[i as int].stderr,
                IoRequest::WritePager { stage: i, from } => {
                    let id = state.pipeline[state.shown as int].id;
                    &&& state.execution.index.dom().contains(id)
                    &&& state.execution.index[id] == i
                    &&& state.external matches Some(ExternalProcess::Pager(pager)) && pager.stdin
                        && pager.bytes_written == from
                    &&& from < stages[i as int].output.len()
                },
            }
        },
{
    let n = state.execution.pipeline.len() as int;
    lemma_contained_in_sum(state.outer_requests(), state.requests_of(n), request);
    lemma_requests_of(state, n, request);
    assert(state.outer_requests().len() == 1);
    assert(state.outer_requests().contains(request) <==> state.outer_requests()[0] == request);
    let at: int = match request {
        IoRequest::WaitExit(i) => i as int,
        IoRequest::WriteStdin { stage: i, from } => i as int,
        IoRequest::ReadStdout(i) => i as int,
        IoRequest::ReadStderr(i) => i as int,
        IoRequest::WritePager { stage: i, from } => i as int,
        _ => 0,
    };
    let waited = exists|i: int| 0 <= i < n && #[trigger] waits_for(state, i, request);
    if waited {
        let i = choose|i: int| 0 <= i < n && #[trigger] waits_for(state, i, request);
        assert(i == at);
    }
    if 0 <= at < n && waits_for(state, at, request) {
        assert(waited);
    }
    let id = state.pipeline[state.shown as int].id;
    assert(state.execution.index.dom().contains(id) ==> state.execution.index[id] < n);
}

/// A write counts for what was written, a process that reads no more counts as one that closed its
/// input, and any other failure is no event.
pub proof fn law_broken_pipes_close_the_input(state: AppView, i: usize, n: usize)
    requires
        i < state.execution.pipeline.len(),
    ensures
        event_loop::count_of(WriteOutcome::Written(n)) == Some(n),
        event_loop::count_of(WriteOutcome::Failed) is None,
        event_loop::count_of(WriteOutcome::BrokenPipe) matches Some(count) && !state.after(
            UiEvent::Stage(i, StageEvent::Stdin(count)),
        ).execution.pipeline[i as int].stdin,
{
}

/// Whatever comes from a stage that exists, or from a program that was launched, is accepted as long
/// as it can be counted and kept. A process ends only once.
pub proof fn law_what_happens_is_accepted(state: AppView, i: usize, n: usize, buf: Vec<u8>)
    requires
        i < state.execution.pipeline.len(),
        n <= buf@.len(),
    ensures
        ({
            let stage = state.execution.pipeline[i as int];
            let limit = crate::bytes::max_buffer_len();
            &&& stage.output.len() + n <= limit ==> state.accepts(
                UiEvent::Stage(i, StageEvent::Stdout(buf, n)),
            )
            &&& stage.eoutput.len() + n <= limit ==> state.accepts(
                UiEvent::Stage(i, StageEvent::Stderr(buf, n)),
            )
            &&& i > 0 && stage.bytes_written_to_stdin + n <= usize::MAX ==> state.accepts(
                UiEvent::Stage(i, StageEvent::Stdin(n)),
            )
            &&& state.accepts(UiEvent::Stage(i, StageEvent::Stdin(0)))
            &&& forall|status: ExitStatus| #[trigger]
                state.accepts(UiEvent::Stage(i, StageEvent::Exit(status)))
                    <==> stage.status is Running
            &&& state.external == Some(ExternalProcess::Editor) ==> forall|command: Option<String>|
                #[trigger] state.accepts(UiEvent::EditorFinished(command))
            &&& state.external matches Some(ExternalProcess::Pager(pager)) ==> {
                &&& forall|status: ExitStatus| #[trigger]
                    state.accepts(UiEvent::Pager(PagerEvent::Exit(status)))
                &&& pager.bytes_written + n <= usize::MAX ==> state.accepts(
                    UiEvent::Pager(PagerEvent::Stdin(n)),
                )
            }
        }),
{
}

/// The terminal is listened to, whatever it reports, unless another program has it or no identifier
/// is left for a new stage.
pub proof fn law_terminal_is_listened_to(state: AppView, event: Event)
    requires
        state.external is None,
        state.next_id < usize::MAX,
    ensures
        state.accepts(UiEvent::Term(event)),
{
}

/// Nothing is left behind without a wish for it, a cancelled program fails, output is left as it is,
/// and the commands of a pipeline are left as one line.
pub proof fn law_what_is_left_behind(left: FinalOutput, stages: Seq<StageView>, output: Seq<u8>)
    ensures
        event_loop::leaves_behind(QuitView::Success, left) <==> left is Nothing,
        event_loop::leaves_behind(QuitView::Cancel, left) <==> left is Cancelled,
        event_loop::leaves_behind(QuitView::Output(output), left) <==> (
        left matches FinalOutput::Bytes(slice) && crate::bytes::covered(slice) == output),
        event_loop::leaves_behind(
            QuitView::Pipeline(
                Seq::new(stages.len(), |i: int| stages[i].field.text),
            ),
            left,
        ) <==> (left matches FinalOutput::Text(line) && line@ == key_laws::written_pipeline(stages)
            + "\n"@),
{
    reveal_strlit("\n");
    let commands = Seq::new(stages.len(), |i: int| stages[i].field.text);
    assert(commands =~= crate::app::commands_of(stages));
    key_laws::lemma_written_pipeline(stages);
    assert(text::joined(commands).push('\n') =~= key_laws::written_pipeline(stages) + "\n"@);
}

proof fn lemma_sum_without_duplicates<T>(a: Seq<T>, b: Seq<T>)
    requires
        a.no_duplicates(),
        b.no_duplicates(),
        forall|item: T| !(#[trigger] a.contains(item) && b.contains(item)),
    ensures
        (a + b).no_duplicates(),
{
    let all = a + b;
    assert forall|i: int, j: int| 0 <= i < j < all.len() implies all[i] != all[j] by {
        if i < a.len() && j >= a.len() {
            assert(a.contains(a[i]));
            assert(b[j - a.len()] == all[j]);
            if all[i] == all[j] {
                assert(b.contains(a[i]));
            }
        } else if i >= a.len() {
            assert(all[i] == b[i - a.len()] && all[j] == b[j - a.len()]);
        }
    }
}

proof fn lemma_stage_requests_once(state: AppView, i: int)
    ensures
        state.stage_requests(i).no_duplicates(),
{
    let stage = state.execution.pipeline[i];
    let at = i as usize;
    let written = stage.bytes_written_to_stdin;
    let feeds = i > 0 && stage.stdin && written < state.execution.pipeline[i - 1].output.len();
    let exit = IoRequest::WaitExit(at);
    let write = IoRequest::WriteStdin { stage: at, from: written };
    let page = IoRequest::WritePager { stage: at, from: state.pager_position() };
    let a = event_loop::only_if(stage.status is Running, exit);
    let b = event_loop::only_if(feeds, write);
    let c = event_loop::only_if(stage.stdout, IoRequest::ReadStdout(at));
    let d = event_loop::only_if(stage.stderr, IoRequest::ReadStderr(at));
    let e = event_loop::only_if(state.feeds_pager(i), page);
    assert forall|item: IoRequest| true implies {
        &&& #[trigger] a.contains(item) ==> item is WaitExit
        &&& b.contains(item) ==> item is WriteStdin
        &&& c.contains(item) ==> item is ReadStdout
        &&& d.contains(item) ==> item is ReadStderr
        &&& e.contains(item) ==> item is WritePager
    } by {
        lemma_only_if(stage.status is Running, exit, item);
        lemma_only_if(feeds, write, item);
        lemma_only_if(stage.stdout, IoRequest::ReadStdout(at), item);
        lemma_only_if(stage.stderr, IoRequest::ReadStderr(at), item);
        lemma_only_if(state.feeds_pager(i), page, item);
    }
    lemma_sum_without_duplicates(a, b);
    assert forall|item: IoRequest| true implies !(#[trigger] (a + b).contains(item)
        && c.contains(item)) by {
        lemma_contained_in_sum(a, b, item);
        assert(a.contains(item) || !a.contains(item));
    }
    lemma_sum_without_duplicates(a + b, c);
    assert forall|item: IoRequest| true implies !(#[trigger] (a + b + c).contains(item)
        && d.contains(item)) by {
        lemma_contained_in_sum(a, b, item);
        lemma_contained_in_sum(a + b, c, item);
        assert(a.contains(item) || !a.contains(item));
    }
    lemma_sum_without_duplicates(a + b + c, d);
    assert forall|item: IoRequest| true implies !(#[trigger] (a + b + c + d).contains(item)
        && e.contains(item)) by {
        lemma_contained_in_sum(a, b, item);
        lemma_contained_in_sum(a + b, c, item);
        lemma_contained_in_sum(a + b + c, d, item);
        assert(a.contains(item) || !a.contains(item));
    }
    lemma_sum_without_duplicates(a + b + c + d, e);
}

proof fn lemma_requests_once(state: AppView, n: int)
    requires
        0 <= n <= usize::MAX,
    ensures
        state.requests_of(n).no_duplicates(),
    decreases n,
{
    if n > 0 {
        lemma_requests_once(state, n - 1);
        lemma_stage_requests_once(state, n - 1);
        let before = state.requests_of(n - 1);
        let own = state.stage_requests(n - 1);
        assert forall|item: IoRequest| true implies !(#[trigger] before.contains(item)
            && own.contains(item)) by {
            lemma_requests_of(state, n - 1, item);
            lemma_stage_requests(state, n - 1, item);
            if before.contains(item) && own.contains(item) {
                let i = choose|i: int| 0 <= i < n - 1 && #[trigger] waits_for(state, i, item);
                assert(false);
            }
        }
        lemma_sum_without_duplicates(before, own);
    }
}

/// Nothing is waited for twice.
pub proof fn law_nothing_is_waited_for_twice(state: AppView)
    requires
        state.execution.pipeline.len() <= usize::MAX,
    ensures
        state.io_requests().no_duplicates(),
{
    let n = state.execution.pipeline.len() as int;
    let outer = state.outer_requests();
    lemma_requests_once(state, n);
    assert forall|item: IoRequest| true implies !(#[trigger] outer.contains(item)
        && state.requests_of(n).contains(item)) by {
        lemma_requests_of(state, n, item);
    }
    lemma_sum_without_duplicates(outer, state.requests_of(n));
}

} // verus!
