use pipec::app::{App, Effect, ExecutionMode, ExternalProcess, Pager, QuitResult};
use pipec::event_loop::{counted, final_output, FinalOutput, IoRequest, PagerEvent, StageEvent, UiEvent, WriteOutcome};
use pipec::options::{Options, PrintOnExit};
use pipec::pipeline::{ExitStatus, ProcessStatus};
use pipec::ui::key::{Event, KeyCode, KeyEvent, KeyEventKind, KeyModifiers, NONE};

const SUCCESS: ExitStatus = ExitStatus { code: Some(0), signal: None };

fn running(commands: &[&str]) -> App {
    let mut app = App::new(Options {
        commands: commands.iter().map(|c| c.to_string()).collect(),
        parse_commands: false,
        execute_on_start: true,
        syntax_highlight: false,
        print_on_exit: PrintOnExit::Nothing,
        shell: None,
        pager: None,
        editor: None,
    })
    .unwrap()
    .0;
    app.shown_stage_index = 0;
    app
}

fn stage(app: &mut App, i: usize, event: StageEvent) {
    assert!(matches!(app.handle_ui_event(UiEvent::Stage(i, event)), Effect::Nothing));
}

fn read(app: &mut App, i: usize, data: &[u8]) {
    // Buffers are larger than what is read into them.
    let mut buf = data.to_vec();
    buf.extend_from_slice(b"garbage");
    stage(app, i, StageEvent::Stdout(buf, data.len()));
}

#[test]
fn output_flows_to_the_next_stage() {
    let mut app = running(&["a", "b"]);
    assert_eq!(
        app.io_requests(),
        [
            IoRequest::ReadTerminal,
            IoRequest::WaitExit(0),
            IoRequest::ReadStdout(0),
            IoRequest::ReadStderr(0),
            IoRequest::WaitExit(1),
            IoRequest::ReadStdout(1),
            IoRequest::ReadStderr(1),
        ]
    );
    read(&mut app, 0, b"hello");
    assert_eq!(app.execution.stage(0).output.as_bytes(), b"hello");
    assert!(app.io_requests().contains(&IoRequest::WriteStdin { stage: 1, from: 0 }));
    stage(&mut app, 1, StageEvent::Stdin(3));
    assert!(app.io_requests().contains(&IoRequest::WriteStdin { stage: 1, from: 3 }));
    // The output is closed, but not all of it was written yet.
    read(&mut app, 0, b"");
    assert!(!app.execution.stage(0).stdout && app.execution.stage(1).stdin);
    stage(&mut app, 1, StageEvent::Stdin(2));
    assert!(!app.execution.stage(1).stdin);
    assert!(!app.io_requests().iter().any(|request| matches!(request, IoRequest::WriteStdin { .. })));
}

#[test]
fn input_is_closed_with_the_output_before_it() {
    let mut app = running(&["a", "b"]);
    read(&mut app, 0, b"x");
    stage(&mut app, 1, StageEvent::Stdin(1));
    assert!(app.execution.stage(1).stdin);
    read(&mut app, 0, b"");
    assert!(!app.execution.stage(1).stdin);
}

#[test]
fn broken_pipe_closes_the_input() {
    let mut app = running(&["a", "b"]);
    read(&mut app, 0, b"x");
    let n = counted(WriteOutcome::BrokenPipe).unwrap();
    stage(&mut app, 1, StageEvent::Stdin(n));
    assert!(!app.execution.stage(1).stdin);
    assert_eq!(app.execution.stage(1).bytes_written_to_stdin, 0);
    assert_eq!(counted(WriteOutcome::Written(7)), Some(7));
    assert_eq!(counted(WriteOutcome::Failed), None);
}

#[test]
fn errors_are_collected_apart() {
    let mut app = running(&["a"]);
    stage(&mut app, 0, StageEvent::Stderr(b"no!".to_vec(), 2));
    assert_eq!(app.execution.stage(0).eoutput.as_bytes(), b"no");
    assert_eq!(app.execution.stage(0).output.as_bytes(), b"");
    stage(&mut app, 0, StageEvent::Stderr(Vec::new(), 0));
    assert!(!app.execution.stage(0).stderr);
}

#[test]
fn finished_stages_wait_for_nothing() {
    let mut app = running(&["a"]);
    stage(&mut app, 0, StageEvent::Exit(SUCCESS));
    assert_eq!(app.execution.stage(0).status, ProcessStatus::Exited(SUCCESS));
    read(&mut app, 0, b"");
    stage(&mut app, 0, StageEvent::Stderr(Vec::new(), 0));
    assert_eq!(app.io_requests(), [IoRequest::ReadTerminal]);
    assert!(app.execution.stage(0).finished());
}

#[test]
fn interrupted_stages_are_not_fed() {
    let mut app = running(&["a", "b"]);
    read(&mut app, 0, b"x");
    app.execution.interrupt(1);
    assert!(!app.io_requests().iter().any(|request| matches!(request, IoRequest::WriteStdin { .. })));
    assert!(app.execution.stage(0).stdout && app.execution.stage(0).output.as_bytes() == b"x");
}

#[test]
fn pager_gets_the_shown_output() {
    let mut app = running(&["a", "b"]);
    read(&mut app, 0, b"hello");
    app.pager_launched();
    assert!(!app.shows_screen());
    let requests = app.io_requests();
    assert_eq!(requests[0], IoRequest::WaitPager);
    assert!(requests.contains(&IoRequest::WritePager { stage: 0, from: 0 }));
    app.handle_ui_event(UiEvent::Pager(PagerEvent::Stdin(4)));
    assert!(app.io_requests().contains(&IoRequest::WritePager { stage: 0, from: 4 }));
    app.handle_ui_event(UiEvent::Pager(PagerEvent::Stdin(1)));
    let pager = Pager { stdin: true, bytes_written: 5 };
    assert_eq!(app.external_process, Some(ExternalProcess::Pager(pager)));
    read(&mut app, 0, b"");
    let closed = Pager { stdin: false, bytes_written: 5 };
    assert_eq!(app.external_process, Some(ExternalProcess::Pager(closed)));
    app.handle_ui_event(UiEvent::Pager(PagerEvent::Exit(SUCCESS)));
    assert!(app.shows_screen());
}

/// The pager stays open until it has got all of the shown output.
#[test]
fn pager_gets_all_of_the_shown_output() {
    let mut app = running(&["a", "b"]);
    read(&mut app, 0, b"hello");
    app.pager_launched();
    app.handle_pager_stdin(2);
    // The end of the output comes before all was written.
    read(&mut app, 0, b"");
    let open = Pager { stdin: true, bytes_written: 2 };
    assert_eq!(app.external_process, Some(ExternalProcess::Pager(open)));
    assert!(app.io_requests().contains(&IoRequest::WritePager { stage: 0, from: 2 }));
    app.handle_pager_stdin(3);
    let closed = Pager { stdin: false, bytes_written: 5 };
    assert_eq!(app.external_process, Some(ExternalProcess::Pager(closed)));
}

/// The output of another stage does not close the pager, whatever its place.
#[test]
fn pager_follows_the_shown_stage() {
    let mut app = App::new(Options {
        commands: ["a", "b", "c"].iter().map(|c| c.to_string()).collect(),
        parse_commands: false,
        execute_on_start: false,
        syntax_highlight: false,
        print_on_exit: PrintOnExit::Nothing,
        shell: None,
        pager: None,
        editor: None,
    })
    .unwrap()
    .0;
    // With the first stage disabled, the second one is executed first.
    app.pipeline[0].enabled = false;
    app.create_pending_execution(ExecutionMode::All);
    app.execute_pending();
    app.shown_stage_index = 1;
    app.pager_launched();
    read(&mut app, 1, b"");
    let open = Pager { stdin: true, bytes_written: 0 };
    assert_eq!(app.external_process, Some(ExternalProcess::Pager(open)));
    read(&mut app, 0, b"");
    let closed = Pager { stdin: false, bytes_written: 0 };
    assert_eq!(app.external_process, Some(ExternalProcess::Pager(closed)));
}

#[test]
fn pager_is_closed_when_all_was_written() {
    let mut app = running(&["a"]);
    read(&mut app, 0, b"hello");
    read(&mut app, 0, b"");
    app.pager_launched();
    app.handle_pager_stdin(5);
    let closed = Pager { stdin: false, bytes_written: 5 };
    assert_eq!(app.external_process, Some(ExternalProcess::Pager(closed)));
    // And when it takes no more.
    app.handle_pager_exit();
    app.pager_launched();
    app.handle_pager_stdin(0);
    let closed = Pager { stdin: false, bytes_written: 0 };
    assert_eq!(app.external_process, Some(ExternalProcess::Pager(closed)));
}

#[test]
fn editor_gives_a_new_command() {
    let mut app = running(&["a"]);
    app.external_process = Some(ExternalProcess::Editor);
    assert_eq!(app.io_requests()[0], IoRequest::WaitEditor);
    app.handle_ui_event(UiEvent::EditorFinished(Some("b".to_string())));
    assert_eq!(app.pipeline[0].input.value(), "b");
}

#[test]
fn terminal_events_reach_the_application() {
    let mut app = running(&["a"]);
    let event = Event::Key(KeyEvent {
        code: KeyCode::Char('b'),
        modifiers: KeyModifiers { bits: NONE },
        kind: KeyEventKind::Repeat,
    });
    assert!(matches!(app.handle_ui_event(UiEvent::Term(event)), Effect::Nothing));
    assert_eq!(app.pipeline[0].input.value(), "ab");
}

#[test]
fn pending_execution_starts_when_it_can() {
    let mut app = running(&["a"]);
    assert!(app.start_pending().is_none());
    app.create_pending_execution(ExecutionMode::All);
    assert_eq!(app.start_pending().unwrap().keep, 1);
    assert!(app.start_pending().is_none());
}

/// A reused stage that has closed its output without any leaves the input of a new stage behind
/// it open.
#[test]
fn new_stage_behind_an_empty_output_keeps_its_input() {
    let mut app = running(&["true"]);
    stage(&mut app, 0, StageEvent::Exit(SUCCESS));
    read(&mut app, 0, b"");
    stage(&mut app, 0, StageEvent::Stderr(Vec::new(), 0));
    app.handle_action(pipec::ui::action::Action::NewStageBelow);
    app.create_pending_execution(ExecutionMode::All);
    assert_eq!(app.start_pending().unwrap().keep, 1);
    assert!(app.execution.stage(1).stdin);
    assert!(!app.io_requests().iter().any(|request| matches!(request, IoRequest::WriteStdin { .. })));
}

#[test]
fn results_are_printed() {
    let commands = vec!["ls -l".to_string(), "wc".to_string()];
    match final_output(QuitResult::Pipeline(commands)) {
        FinalOutput::Text(line) => assert_eq!(line, "ls -l | wc\n"),
        _ => panic!("a line is to be printed"),
    }
    assert!(matches!(final_output(QuitResult::Success), FinalOutput::Nothing));
    assert!(matches!(final_output(QuitResult::Cancel), FinalOutput::Cancelled));

    let mut app = running(&["a"]);
    read(&mut app, 0, b"\xff\x00");
    app.handle_action(pipec::ui::action::Action::Quit(pipec::ui::action::QuitAction::PrintOutput));
    match final_output(app.should_quit.unwrap()) {
        FinalOutput::Bytes(bytes) => assert_eq!(bytes.as_bytes(), b"\xff\x00"),
        _ => panic!("the output is to be printed"),
    }
}
