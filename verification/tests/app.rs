use pipec::app::{App, Effect, ExecutionMode, ExternalProcess, QuitResult};
use pipec::options::{Options, PrintOnExit};
use pipec::parser::ParseError;
use pipec::pipeline::{ExitStatus, StartPlan};
use pipec::ui::action::{Action, CopySource, QuitAction};
use pipec::ui::key::{Event, KeyCode, KeyEvent, KeyEventKind, KeyModifiers, ALT, CONTROL, CONTROL_SHIFT, NONE, SHIFT};

fn options(commands: &[&str]) -> Options {
    Options {
        commands: commands.iter().map(|c| c.to_string()).collect(),
        parse_commands: false,
        execute_on_start: false,
        syntax_highlight: false,
        print_on_exit: PrintOnExit::Ask,
        shell: None,
        pager: None,
        editor: None,
    }
}

fn app(commands: &[&str]) -> App {
    App::new(options(commands)).unwrap().0
}

fn press(code: KeyCode, bits: u8) -> Event {
    Event::Key(KeyEvent { code, modifiers: KeyModifiers { bits }, kind: KeyEventKind::Press })
}

fn ctrl(c: char) -> Event {
    press(KeyCode::Char(c), CONTROL)
}

fn type_text(app: &mut App, text: &str) {
    for c in text.chars() {
        app.handle_input(press(KeyCode::Char(c), NONE));
    }
}

fn commands(app: &App) -> Vec<String> {
    app.pipeline.iter().map(|stage| stage.input.value().to_string()).collect()
}

fn planned(plan: &StartPlan) -> (usize, Vec<(String, bool)>) {
    (plan.keep, plan.commands.iter().map(|c| (c.command.clone(), c.stdin)).collect())
}

fn execute_all(app: &mut App) -> StartPlan {
    app.create_pending_execution(ExecutionMode::All);
    app.execute_pending().unwrap()
}

fn exit(app: &mut App, i: usize, code: i32) {
    app.handle_process_terminated(i, ExitStatus { code: Some(code), signal: None });
}

#[test]
fn start_without_commands_has_one_empty_stage() {
    let (app, plan) = App::new(options(&[])).unwrap();
    assert_eq!(commands(&app), [""]);
    assert_eq!((app.focused_stage, app.shown_stage_index), (0, 0));
    assert!(plan.is_none());
    assert!(app.execution.get_index(app.pipeline[0].id).is_none());
}

#[test]
fn start_with_commands_has_one_stage_each() {
    let app = app(&["ls -l", "grep .toml"]);
    assert_eq!(commands(&app), ["ls -l", "grep .toml"]);
    assert_eq!((app.focused_stage, app.shown_stage_index), (1, 1));
    assert_ne!(app.pipeline[0].id, app.pipeline[1].id);
}

#[test]
fn pipelines_are_split_on_request() {
    let mut split = options(&["ls -l | grep .toml", "wc"]);
    split.parse_commands = true;
    assert_eq!(commands(&App::new(split).unwrap().0), ["ls -l", "grep .toml", "wc"]);

    let mut wrong = options(&["ls", "echo 'a", "echo )"]);
    wrong.parse_commands = true;
    assert!(matches!(App::new(wrong), Err(ParseError::UnexpectedEnd)));
}

#[test]
fn commands_are_executed_on_start_on_request() {
    let mut at_once = options(&["yes", "head"]);
    at_once.execute_on_start = true;
    let (app, plan) = App::new(at_once).unwrap();
    assert_eq!(
        planned(&plan.unwrap()),
        (0, vec![("yes".to_string(), false), ("head".to_string(), true)])
    );
    assert_eq!(app.execution.stage_count(), 2);
    assert!(app.pending_execution.is_none());
    assert!(!app.execution.stage(0).stdin && app.execution.stage(1).stdin);
}

#[test]
fn typed_characters_end_up_at_the_cursor() {
    let mut app = app(&["ls"]);
    type_text(&mut app, " -l");
    assert_eq!(commands(&app), ["ls -l"]);
    app.handle_input(press(KeyCode::Home, NONE));
    app.handle_input(press(KeyCode::Char('X'), SHIFT));
    app.handle_input(press(KeyCode::Char('y'), NONE));
    assert_eq!(commands(&app), ["Xyls -l"]);
    app.handle_input(press(KeyCode::Backspace, NONE));
    app.handle_input(press(KeyCode::Delete, NONE));
    assert_eq!(commands(&app), ["Xs -l"]);
    // Cut to the end.
    app.handle_input(ctrl('k'));
    assert_eq!(commands(&app), ["X"]);
}

#[test]
fn keys_without_use_and_keys_let_go_change_nothing() {
    let mut app = app(&["ls"]);
    app.handle_input(press(KeyCode::F(5), NONE));
    app.handle_input(press(KeyCode::Tab, NONE));
    app.handle_input(Event::Key(KeyEvent {
        code: KeyCode::Char('x'),
        modifiers: KeyModifiers { bits: NONE },
        kind: KeyEventKind::Release,
    }));
    app.handle_input(Event::Other);
    assert_eq!(commands(&app), ["ls"]);
}

#[test]
fn keys_have_their_actions() {
    let mut app = app(&["a"]);
    let expected = [
        (ctrl('p'), Action::NewStageAbove),
        (ctrl('n'), Action::NewStageBelow),
        (ctrl('d'), Action::DeleteStage),
        (ctrl('x'), Action::ToggleStage),
        (press(KeyCode::Char('c'), CONTROL_SHIFT), Action::AbortPipeline),
        (press(KeyCode::Up, NONE), Action::FocusPreviousStage),
        (press(KeyCode::Down, NONE), Action::FocusNextStage),
        (press(KeyCode::Enter, NONE), Action::Execute),
        (press(KeyCode::Enter, ALT), Action::ExecuteAll),
        (ctrl(' '), Action::ShowStageOutput),
        (ctrl('l'), Action::LaunchPager),
        (ctrl('v'), Action::LaunchEditor),
        (ctrl('r'), Action::RestartPipeline),
    ];
    for (event, action) in expected {
        assert_eq!(app.get_action_for_event(event), Some(action));
    }
    // With another modifier, the key goes to the command.
    let other = KeyEvent {
        code: KeyCode::Up,
        modifiers: KeyModifiers { bits: SHIFT },
        kind: KeyEventKind::Press,
    };
    assert_eq!(app.get_action_for_event(Event::Key(other)), Some(Action::Input(other)));
    assert_eq!(app.get_action_for_event(Event::Other), None);
}

#[test]
fn quitting_asks_what_to_print() {
    let mut app = app(&["ls", "wc"]);
    assert_eq!(app.get_action_for_event(ctrl('q')), None);
    assert!(app.popup.is_some());
    // Keys that are not offered are ignored.
    assert_eq!(app.get_action_for_event(press(KeyCode::Char('z'), NONE)), None);
    assert!(app.popup.is_some());
    assert_eq!(
        app.get_action_for_event(press(KeyCode::Char('o'), NONE)),
        Some(Action::Quit(QuitAction::PrintOutput))
    );
    assert!(app.popup.is_none());

    app.handle_input(ctrl('q'));
    app.handle_input(press(KeyCode::Esc, NONE));
    assert!(app.popup.is_none() && app.should_quit.is_none());

    app.handle_input(ctrl('q'));
    app.handle_input(press(KeyCode::Char('p'), NONE));
    match app.should_quit {
        Some(QuitResult::Pipeline(commands)) => assert_eq!(commands, ["ls", "wc"]),
        _ => panic!("the pipeline is to be printed"),
    }
}

#[test]
fn quitting_asks_less_where_it_is_settled() {
    let mut settings = options(&["ls"]);
    settings.print_on_exit = PrintOnExit::Nothing;
    let mut app = App::new(settings).unwrap().0;
    app.handle_input(ctrl('q'));
    assert!(matches!(app.should_quit, Some(QuitResult::Success)));

    for (setting, action) in [
        (PrintOnExit::Pipeline, QuitAction::PrintPipeline),
        (PrintOnExit::Output, QuitAction::PrintOutput),
    ] {
        let mut settings = options(&["ls"]);
        settings.print_on_exit = setting;
        let mut app = App::new(settings).unwrap().0;
        app.get_action_for_event(ctrl('q'));
        assert_eq!(
            app.get_action_for_event(press(KeyCode::Char('y'), NONE)),
            Some(Action::Quit(action))
        );
        app.get_action_for_event(ctrl('q'));
        assert_eq!(
            app.get_action_for_event(press(KeyCode::Char('n'), NONE)),
            Some(Action::Quit(QuitAction::Cancel))
        );
    }
}

#[test]
fn output_can_be_printed_only_if_there_is_any() {
    let mut nothing = app(&["ls"]);
    nothing.handle_action(Action::Quit(QuitAction::PrintOutput));
    assert!(matches!(nothing.should_quit, Some(QuitResult::Cancel)));

    let mut something = app(&["ls", "wc"]);
    execute_all(&mut something);
    something.handle_stdout(0, b"first");
    something.handle_stdout(1, b"last");
    something.handle_action(Action::Quit(QuitAction::PrintOutput));
    match something.should_quit {
        Some(QuitResult::Output(output)) => assert_eq!(output.as_bytes(), b"last"),
        _ => panic!("the output is to be printed"),
    }
}

#[test]
fn new_stages_come_above_or_below() {
    let mut app = app(&["a", "b"]);
    app.handle_action(Action::NewStageAbove);
    assert_eq!(commands(&app), ["a", "", "b"]);
    assert_eq!(app.focused_stage, 1);
    app.handle_action(Action::NewStageBelow);
    assert_eq!(commands(&app), ["a", "", "", "b"]);
    assert_eq!(app.focused_stage, 2);
    // Deleted right away, they are gone without a trace.
    app.handle_action(Action::DeleteStage);
    assert_eq!((commands(&app).len(), app.focused_stage), (3, 1));
    app.handle_action(Action::DeleteStage);
    assert_eq!(commands(&app), ["a", "b"]);
}

#[test]
fn last_stage_stays() {
    let mut app = app(&["a", "b"]);
    app.handle_action(Action::DeleteStage);
    assert_eq!((app.focused_stage, app.shown_stage_index), (0, 0));
    app.handle_action(Action::DeleteStage);
    assert_eq!(commands(&app), ["a"]);
}

#[test]
fn focus_moves_within_the_stages() {
    let mut app = app(&["a", "b", "c"]);
    app.handle_action(Action::FocusNextStage);
    assert_eq!(app.focused_stage, 2);
    app.handle_action(Action::FocusPreviousStage);
    app.handle_action(Action::FocusPreviousStage);
    app.handle_action(Action::FocusPreviousStage);
    assert_eq!(app.focused_stage, 0);
    assert_eq!(app.shown_stage_index, 2);
    app.handle_action(Action::ShowStageOutput);
    assert_eq!(app.shown_stage_index, 0);
}

#[test]
fn toggling_twice_changes_nothing() {
    let mut app = app(&["a"]);
    app.handle_action(Action::ToggleStage);
    assert!(!app.pipeline[0].enabled);
    app.handle_action(Action::ToggleStage);
    assert!(app.pipeline[0].enabled);
}

#[test]
fn commands_are_executed_up_to_the_focused_stage() {
    let mut app = app(&["a", "b", "c", "d"]);
    app.pipeline[2].enabled = false;
    app.focused_stage = 1;
    app.handle_action(Action::Execute);
    let plan = app.execute_pending().unwrap();
    assert_eq!(planned(&plan), (0, vec![("a".to_string(), false), ("b".to_string(), true)]));
    // The disabled stage behind shows the same output.
    assert_eq!(app.execution.get_index(app.pipeline[2].id), Some(1));
    assert_eq!(app.execution.get_index(app.pipeline[3].id), None);
    assert_eq!(app.shown_stage_index, 1);
}

#[test]
fn disabled_stages_show_the_output_before_them() {
    let mut app = app(&["a", "b", "c", "d"]);
    app.pipeline[0].enabled = false;
    app.pipeline[2].enabled = false;
    app.handle_action(Action::ExecuteAll);
    let plan = app.execute_pending().unwrap();
    assert_eq!(planned(&plan), (0, vec![("b".to_string(), false), ("d".to_string(), true)]));
    let shown: Vec<_> = app.pipeline.iter().map(|stage| app.execution.get_index(stage.id)).collect();
    assert_eq!(shown, [None, Some(0), Some(0), Some(1)]);
}

#[test]
fn unchanged_stages_are_reused() {
    let mut app = app(&["a", "b", "c"]);
    execute_all(&mut app);
    app.handle_stdout(0, b"from a");
    exit(&mut app, 0, 0);
    // Nothing changed: nothing is started, nothing is killed.
    let killed = app.create_pending_execution(ExecutionMode::All);
    assert!(killed.is_empty());
    assert_eq!(planned(&app.execute_pending().unwrap()), (3, vec![]));
    assert_eq!(app.execution.stage(0).output.as_bytes(), b"from a");

    // The second command changes: the first one is kept.
    app.focused_stage = 1;
    type_text(&mut app, "2");
    let effect = app.handle_action(Action::ExecuteAll);
    assert!(matches!(effect, Effect::Kill(ref killed) if *killed == [1, 2]));
    for i in 1..3 {
        exit(&mut app, i, 1);
        app.handle_stdout(i, b"");
        app.handle_stderr(i, b"");
    }
    let plan = app.start_pending().unwrap();
    assert_eq!(planned(&plan), (1, vec![("b2".to_string(), true), ("c".to_string(), true)]));
    assert_eq!(app.execution.stage(0).output.as_bytes(), b"from a");
    assert_eq!(app.execution.stage(1).output.as_bytes(), b"");
}

#[test]
fn failed_stages_are_not_reused() {
    let mut app = app(&["a", "b"]);
    execute_all(&mut app);
    exit(&mut app, 0, 1);
    let killed = app.create_pending_execution(ExecutionMode::All);
    assert_eq!(killed, [1]);
}

#[test]
fn executions_wait_for_interrupted_stages() {
    let mut app = app(&["a"]);
    execute_all(&mut app);
    type_text(&mut app, "2");
    let effect = app.handle_action(Action::ExecuteAll);
    assert!(matches!(effect, Effect::Kill(killed) if killed == [0]));
    assert!(app.start_pending().is_none());
    exit(&mut app, 0, 0);
    assert!(app.start_pending().is_none());
    app.handle_stdout(0, b"");
    assert!(app.start_pending().is_none());
    app.handle_stderr(0, b"");
    assert_eq!(planned(&app.start_pending().unwrap()), (0, vec![("a2".to_string(), false)]));
}

/// A restart starts everything anew, whether it has finished or not.
#[test]
fn restart_starts_all() {
    let mut app = app(&["a", "b"]);
    execute_all(&mut app);
    exit(&mut app, 0, 0);
    app.handle_stdout(0, b"from a");
    let effect = app.handle_action(Action::RestartPipeline);
    assert!(matches!(effect, Effect::Kill(killed) if killed.is_empty()));
    assert!(!app.can_reuse_execution);
    assert_eq!(
        planned(&app.start_pending().unwrap()),
        (0, vec![("a".to_string(), false), ("b".to_string(), true)])
    );
    assert!(app.can_reuse_execution);
    assert_eq!(app.execution.stage(0).output.as_bytes(), b"");
}

#[test]
fn abort_kills_what_runs() {
    let mut app = app(&["a", "b", "c"]);
    execute_all(&mut app);
    exit(&mut app, 1, 0);
    let effect = app.handle_action(Action::AbortPipeline);
    assert!(matches!(effect, Effect::Kill(ref killed) if *killed == [0, 2]));
    assert!(!app.execution.stage(1).stdin && !app.execution.stage(2).stdin);
    // Another abort has nothing left to do.
    assert!(matches!(app.handle_action(Action::AbortPipeline), Effect::Kill(killed) if killed.is_empty()));
}

#[test]
fn texts_are_copied() {
    let mut app = app(&["ls", "wc"]);
    let mut copied = |app: &mut App, source| match app.handle_action(Action::CopyToClipboard(source)) {
        Effect::SetClipboard(text) => Some(text),
        _ => None,
    };
    assert_eq!(copied(&mut app, CopySource::FocusedStageCommand).unwrap(), "wc");
    assert_eq!(copied(&mut app, CopySource::WholePipeline).unwrap(), "ls | wc");
    assert_eq!(copied(&mut app, CopySource::ShownStageOutput), None);
    assert_eq!(copied(&mut app, CopySource::FinalStageOuput), None);
    execute_all(&mut app);
    app.handle_stdout(0, "ä".as_bytes());
    app.handle_stdout(1, b"1\xff");
    app.shown_stage_index = 0;
    assert_eq!(copied(&mut app, CopySource::ShownStageOutput).unwrap(), "ä");
    // What is no text is not copied.
    assert_eq!(copied(&mut app, CopySource::FinalStageOuput), None);
}

#[test]
fn popup_offers_what_to_copy() {
    let mut app = app(&["ls"]);
    assert!(matches!(app.handle_input(ctrl('y')), Effect::Nothing));
    let effect = app.handle_input(press(KeyCode::Char('c'), NONE));
    assert!(matches!(effect, Effect::SetClipboard(text) if text == "ls"));
}

#[test]
fn programs_are_launched() {
    let mut app = app(&["ls"]);
    assert!(matches!(app.handle_action(Action::LaunchPager), Effect::Nothing));
    execute_all(&mut app);
    assert!(matches!(app.handle_action(Action::LaunchPager), Effect::LaunchPager));
    assert!(app.external_process.is_none());
    let effect = app.handle_action(Action::LaunchEditor);
    assert!(matches!(effect, Effect::LaunchEditor(text) if text == "ls"));
    assert_eq!(app.external_process, Some(ExternalProcess::Editor));
    app.handle_editor_exit(Some("ls -a".to_string()));
    assert_eq!(commands(&app), ["ls -a"]);
    assert_eq!(app.external_process, None);
    app.handle_action(Action::LaunchEditor);
    app.handle_editor_exit(None);
    assert_eq!(commands(&app), ["ls -a"]);
}
