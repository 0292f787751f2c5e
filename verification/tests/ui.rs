use crossterm::event::{KeyCode as TermCode, MediaKeyCode, ModifierKeyCode};
use pipec::app::{App, ExecutionMode};
use pipec::input::handle_key;
use pipec::options::{Options, PrintOnExit};
use pipec::pipeline::{ExitStatus, ProcessStatus, Stage, StageExecution};
use pipec::id_generator::IdGenerator;
use pipec::ui::action::Action;
use pipec::ui::content::{Line, Span, Text};
use pipec::ui::frame::{Alignment, Draw, Frame};
use pipec::ui::geometry::{Position, Rect};
use pipec::ui::highlight::{get_style_for_highlight, highlight_command_to_spans, render_events, HighlightEvent};
use pipec::ui::key::{Event, KeyCode, KeyEvent, KeyEventKind, KeyModifiers, MediaKey, ModifierKey, ALT, CONTROL, CONTROL_SHIFT, NONE};
use pipec::ui::key_name::{format_key_event, prefix};
use pipec::ui::popup::{KeysPopup, PopupAreas, PopupKey};
use pipec::ui::screen::ScreenAreas;
use pipec::ui::stage::{draw_stage, render_stage, StageAreas};
use pipec::ui::style::{Color, Style};
use pipec::ui::utils::{draw_help, render_help, status_failed_span, status_killed_span, status_running_span, status_successful_span, status_unknown_span, HelpAreas};

const SCREEN: Rect = Rect { x: 0, y: 0, width: 80, height: 40 };

fn plain() -> Style {
    Style::plain()
}

fn stage(command: &str) -> Stage {
    Stage::with_command(IdGenerator::new().gen_id(), command.to_string())
}

fn areas(y: u16, width: u16) -> StageAreas {
    StageAreas {
        marker: Rect::new(0, y, 1, 1),
        command: Rect::new(2, y, width, 1),
        status: Rect::new(width + 3, y, 1, 1),
    }
}

fn name(bits: u8, code: KeyCode) -> String {
    format_key_event(KeyModifiers { bits }, code)
}

fn running(commands: &[&str], syntax_highlight: bool) -> App {
    App::new(Options {
        commands: commands.iter().map(|c| c.to_string()).collect(),
        parse_commands: false,
        execute_on_start: true,
        syntax_highlight,
        print_on_exit: PrintOnExit::Ask,
        shell: None,
        pager: None,
        editor: None,
    })
    .unwrap()
    .0
}

fn command_of(draw: &Draw) -> String {
    match draw {
        Draw::Paragraph { text, .. } => {
            text.lines[0].spans.iter().map(|span| span.content.as_str()).collect()
        }
        _ => panic!("a command is drawn as a paragraph"),
    }
}

#[test]
fn keys_have_names() {
    assert_eq!(name(NONE, KeyCode::Char('q')), "q");
    assert_eq!(name(CONTROL, KeyCode::Char(' ')), "Ctrl-Space");
    assert_eq!(name(CONTROL_SHIFT, KeyCode::Enter), "Ctrl-Shift-Enter");
    assert_eq!(name(ALT | CONTROL_SHIFT, KeyCode::Esc), "Ctrl-Shift-Alt-Esc");
    // Other modifiers have no name.
    assert_eq!(name(8, KeyCode::Backspace), "Backspace");
    assert_eq!(name(NONE, KeyCode::Tab), "Tab");
    assert_eq!(name(NONE, KeyCode::Up), "↑");
    assert_eq!(name(NONE, KeyCode::Down), "↓");
    assert_eq!(name(NONE, KeyCode::Left), "←");
    assert_eq!(name(NONE, KeyCode::Right), "→");
    assert_eq!(name(NONE, KeyCode::F(0)), "F(0)");
    assert_eq!(name(NONE, KeyCode::F(12)), "F(12)");
    assert_eq!(name(NONE, KeyCode::F(205)), "F(205)");
    assert_eq!(name(NONE, KeyCode::PageUp), "PageUp");
    assert_eq!(name(NONE, KeyCode::KeypadBegin), "KeypadBegin");
    assert_eq!(name(NONE, KeyCode::Media(MediaKey::PlayPause)), "Media(PlayPause)");
    assert_eq!(name(NONE, KeyCode::Modifier(ModifierKey::IsoLevel3Shift)), "Modifier(IsoLevel3Shift)");
}

/// Keys without a name of their own are named as the terminal library does.
#[test]
fn other_names_are_those_of_the_terminal_library() {
    let same = [
        (KeyCode::Home, TermCode::Home),
        (KeyCode::End, TermCode::End),
        (KeyCode::PageUp, TermCode::PageUp),
        (KeyCode::PageDown, TermCode::PageDown),
        (KeyCode::BackTab, TermCode::BackTab),
        (KeyCode::Delete, TermCode::Delete),
        (KeyCode::Insert, TermCode::Insert),
        (KeyCode::F(7), TermCode::F(7)),
        (KeyCode::Null, TermCode::Null),
        (KeyCode::CapsLock, TermCode::CapsLock),
        (KeyCode::ScrollLock, TermCode::ScrollLock),
        (KeyCode::NumLock, TermCode::NumLock),
        (KeyCode::PrintScreen, TermCode::PrintScreen),
        (KeyCode::Pause, TermCode::Pause),
        (KeyCode::Menu, TermCode::Menu),
        (KeyCode::KeypadBegin, TermCode::KeypadBegin),
        (KeyCode::Media(MediaKey::TrackNext), TermCode::Media(MediaKeyCode::TrackNext)),
        (KeyCode::Modifier(ModifierKey::LeftHyper), TermCode::Modifier(ModifierKeyCode::LeftHyper)),
    ];
    for (code, term) in same {
        assert_eq!(name(NONE, code), format!("{:?}", term));
    }
}

#[test]
fn signs_tell_how_stages_go() {
    assert_eq!(status_running_span(), Span::styled("•", plain().fg(Color::Yellow)));
    assert_eq!(status_successful_span(), Span::styled("✔︎", plain().fg(Color::Green)));
    assert_eq!(status_failed_span(), Span::styled("✖︎", plain().fg(Color::Red)));
    assert_eq!(status_killed_span(), Span::styled("ѳ", plain().fg(Color::Red)));
    assert_eq!(status_unknown_span(), Span::styled("?", plain().fg(Color::Red)));

    let sign = |exec: Option<&StageExecution>| {
        let mut f = Frame::new(SCREEN);
        render_stage(&mut f, &stage("a"), exec, areas(0, 10), true, false).unwrap();
        match f.draws.pop() {
            Some(Draw::Paragraph { mut text, alignment: Alignment::Right, scroll: 0, .. }) => {
                text.lines.pop().unwrap().spans.pop().unwrap()
            }
            _ => panic!("the sign is drawn last"),
        }
    };
    let mut exec = StageExecution::start("a".to_string(), false);
    assert_eq!(sign(None), Span::raw(" "));
    assert_eq!(sign(Some(&exec)), status_running_span());
    for (code, signal, expected) in [
        (Some(0), None, status_successful_span()),
        (Some(2), None, status_failed_span()),
        (None, Some(9), status_killed_span()),
        (None, None, status_unknown_span()),
    ] {
        exec.status = ProcessStatus::Exited(ExitStatus { code, signal });
        assert_eq!(sign(Some(&exec)), expected);
    }
}

#[test]
fn stage_shows_its_command() {
    let command_style = |stage: &Stage, exec: Option<&StageExecution>| {
        let mut f = Frame::new(SCREEN);
        render_stage(&mut f, stage, exec, areas(0, 10), false, false).unwrap();
        match &f.draws[1] {
            Draw::Paragraph { text, .. } => text.lines[0].spans[0].style,
            _ => panic!("the command is a paragraph"),
        }
    };
    let mut stage = stage("ls");
    let same = StageExecution::start("ls".to_string(), false);
    let other = StageExecution::start("ls -l".to_string(), false);
    assert_eq!(command_style(&stage, None), plain().bold());
    assert_eq!(command_style(&stage, Some(&other)), plain().bold());
    assert_eq!(command_style(&stage, Some(&same)), plain());
    stage.enabled = false;
    assert_eq!(command_style(&stage, Some(&same)), plain().crossed_out());
    assert_eq!(command_style(&stage, None), plain().crossed_out().bold());
}

#[test]
fn long_commands_are_scrolled_to_the_cursor() {
    let mut f = Frame::new(SCREEN);
    let position = render_stage(&mut f, &stage("0123456789"), None, areas(3, 5), true, false);
    // Four columns in front of the cursor are left.
    assert_eq!(position, Some(Position { x: 6, y: 3 }));
    assert_eq!(
        f.draws[0],
        Draw::Span {
            area: Rect::new(0, 3, 1, 1),
            span: Span::styled("❯", plain().fg(Color::Green)),
        }
    );
    assert_eq!(
        f.draws[1],
        Draw::Paragraph {
            area: Rect::new(2, 3, 5, 1),
            text: Text::of(vec![Line::of(Span::styled("0123456789", plain().bold()))]),
            alignment: Alignment::Left,
            scroll: 6,
        }
    );
    // Wide characters take two columns.
    let mut wide = stage("日本");
    let position = render_stage(&mut f, &wide, None, areas(0, 10), false, false);
    assert_eq!(position, Some(Position { x: 6, y: 0 }));
    handle_key(
        &mut wide.input,
        &KeyEvent { code: KeyCode::Left, modifiers: KeyModifiers { bits: NONE }, kind: KeyEventKind::Press },
    );
    let position = render_stage(&mut f, &wide, None, areas(0, 10), false, false);
    assert_eq!(position, Some(Position { x: 4, y: 0 }));
}

#[test]
fn stage_needs_a_column_for_its_command() {
    let mut f = Frame::new(SCREEN);
    assert_eq!(render_stage(&mut f, &stage("a"), None, areas(0, 0), true, false), None);
    let mut far = areas(0, 10);
    far.command.x = u16::MAX;
    assert_eq!(render_stage(&mut f, &stage("a"), None, far, true, false), None);
    assert!(f.draws.is_empty());
    assert_eq!(
        render_stage(&mut f, &stage(""), None, far, true, false),
        Some(Position { x: u16::MAX, y: 0 })
    );
}

#[test]
fn given_scroll_and_cursor_are_used() {
    let mut f = Frame::new(SCREEN);
    let spans = vec![Span::raw("abc")];
    assert_eq!(
        draw_stage(&mut f, areas(1, 9), false, spans, Span::raw("!"), 4, 9),
        Position { x: 7, y: 1 }
    );
    let spans = vec![Span::raw("abc")];
    assert_eq!(
        draw_stage(&mut f, areas(1, 9), false, spans, Span::raw("!"), 9, 4),
        Position { x: 2, y: 1 }
    );
    assert_eq!(f.draws.len(), 6);
}

#[test]
fn highlights_have_styles() {
    let base = plain().bold();
    let expected = [Color::Green, Color::Red, Color::Blue, Color::Yellow, Color::Gray, Color::Cyan];
    for (highlight, color) in expected.into_iter().enumerate() {
        assert_eq!(get_style_for_highlight(highlight, base), base.fg(color));
    }
    for highlight in [6, 7, 8, 100] {
        assert_eq!(get_style_for_highlight(highlight, base), base);
    }
}

#[test]
fn given_steps_are_rendered() {
    let source = |start, end| HighlightEvent::Source { start, end };
    let base = plain().bold();
    let events = vec![
        source(0, 3),
        HighlightEvent::HighlightStart(0),
        source(3, 4),
        HighlightEvent::HighlightStart(5),
        HighlightEvent::HighlightEnd,
        HighlightEvent::HighlightEnd,
        source(4, 5),
    ];
    assert_eq!(
        render_events("aäbc", &events, base),
        vec![
            Span::styled("aä", base),
            Span::styled("b", base.fg(Color::Green)),
            // The end of a highlight ends a span even if there is nothing in it.
            Span::styled("", base.fg(Color::Cyan)),
            Span::styled("", base.fg(Color::Green)),
            // What comes behind all highlights keeps the style that is highlighted over.
            Span::styled("c", base),
        ]
    );
}

#[test]
fn commands_are_highlighted() {
    let spans = highlight_command_to_spans("grep \"a b\" # 1", plain().bold()).unwrap();
    let text: String = spans.iter().map(|span| span.content.as_str()).collect();
    assert_eq!(text, "grep \"a b\" # 1");
    let style = |content: &str| spans.iter().find(|span| span.content == content).unwrap().style;
    assert_eq!(style("grep"), plain().bold().fg(Color::Red));
    assert_eq!(style("\"a b\""), plain().bold().fg(Color::Green));
    assert_eq!(style("# 1"), plain().bold().fg(Color::Gray));
    assert_eq!(highlight_command_to_spans("", plain()), Ok(vec![]));
}

/// Highlighting changes colors only: bold and crossed out text stays so, up to its end.
#[test]
fn highlighting_changes_only_colors() {
    let base = plain().bold().crossed_out();
    for command in ["ls -l  ", "echo 'ä' | wc > file", "   ", "if", "cat <<EOF"] {
        let spans = highlight_command_to_spans(command, base).unwrap();
        let text: String = spans.iter().map(|span| span.content.as_str()).collect();
        assert_eq!(text, command);
        for span in &spans {
            assert_eq!(Style { fg: None, ..span.style }, base);
        }
    }
    assert_eq!(highlight_command_to_spans("   ", base), Ok(vec![Span::styled("   ", base)]));
}

#[test]
fn modifiers_come_in_front_of_names() {
    assert_eq!(prefix(KeyModifiers { bits: CONTROL }, "Home"), "Ctrl-Home");
    assert_eq!(prefix(KeyModifiers { bits: NONE }, "Home"), "Home");
}

/// The parts of a stage are in its row, and everything lies on the screen.
#[test]
fn places_keep_to_their_areas() {
    let screen = Rect::new(3, 2, 50, 12);
    let mut app = running(&["a", "b"], false);
    app.handle_stderr(1, b"oops");
    app.handle_stdout(1, b"fine");
    let areas = app.arrange(screen);
    let inside = |area: Rect| {
        area.x >= screen.x
            && area.y >= screen.y
            && area.right() <= screen.right()
            && area.bottom() <= screen.bottom()
    };
    let mut rows = Vec::new();
    for stage in &areas.stages {
        for part in [stage.marker, stage.command, stage.status] {
            assert!(inside(part));
            assert_eq!((part.y, part.height), (stage.command.y, 1));
        }
        rows.push(stage.command.y);
    }
    assert_eq!(rows, [2, 3]);
    assert!(inside(areas.output.unwrap()) && inside(areas.eoutput.unwrap()));
    assert_eq!(areas.output.unwrap().width, 50);
    let f = app.compose(screen, &areas).unwrap();
    assert_eq!(f.cursor.unwrap().y, 3);
}

fn popup() -> KeysPopup {
    KeysPopup::new(vec![
        PopupKey::plain('a', "First", Action::Execute),
        PopupKey {
            modifiers: KeyModifiers { bits: CONTROL },
            code: KeyCode::Char('b'),
            description: "Second one",
            action: Action::DeleteStage,
        },
    ])
}

#[test]
fn popup_finds_actions() {
    let press = |c, bits, kind| {
        popup().get_action(Event::Key(KeyEvent {
            code: KeyCode::Char(c),
            modifiers: KeyModifiers { bits },
            kind,
        }))
    };
    assert_eq!(press('a', NONE, KeyEventKind::Press), Some(Action::Execute));
    assert_eq!(press('b', CONTROL, KeyEventKind::Press), Some(Action::DeleteStage));
    assert_eq!(press('b', NONE, KeyEventKind::Press), None);
    assert_eq!(press('a', NONE, KeyEventKind::Release), None);
    assert_eq!(popup().get_action(Event::Other), None);
}

#[test]
fn popup_is_drawn_in_a_box() {
    let mut f = Frame::new(SCREEN);
    let areas = PopupAreas { keys: Rect::new(5, 6, 6, 2), descriptions: Rect::new(13, 6, 10, 2) };
    popup().draw(&mut f, areas);
    let whole = Rect::new(4, 5, 20, 4);
    let key_style = plain().bold().fg(Color::Black);
    assert_eq!(
        f.draws,
        vec![
            Draw::Clear { area: whole },
            Draw::Fill { area: whole, style: plain().bg(Color::LightCyan) },
            Draw::Text {
                area: areas.keys,
                text: Text::of(vec![
                    Line::of(Span::styled("a", key_style)),
                    Line::of(Span::styled("Ctrl-b", key_style)),
                ]),
                alignment: Alignment::Right,
            },
            Draw::Text {
                area: areas.descriptions,
                text: Text::of(vec![
                    Line::of(Span::raw("First")),
                    Line::of(Span::raw("Second one")),
                ]),
                alignment: Alignment::Left,
            },
        ]
    );
}

#[test]
fn popup_is_placed_in_the_middle() {
    let mut f = Frame::new(SCREEN);
    assert!(popup().render(&mut f, SCREEN));
    match (&f.draws[2], &f.draws[3]) {
        (Draw::Text { area: keys, .. }, Draw::Text { area: descriptions, .. }) => {
            assert_eq!((keys.width, keys.height), (6, 2));
            assert_eq!((descriptions.width, descriptions.height), (10, 2));
            assert_eq!((keys.x + 8, keys.y), (descriptions.x, descriptions.y));
            assert_eq!((keys.x, keys.y), (31, 19));
        }
        _ => panic!("keys and descriptions are drawn last"),
    }
    // An odd cell comes in front.
    let mut f = Frame::new(SCREEN);
    assert!(popup().render(&mut f, Rect::new(2, 3, 23, 5)));
    match &f.draws[0] {
        Draw::Clear { area } => assert_eq!(*area, Rect::new(4, 4, 20, 4)),
        _ => panic!("the box is cleared first"),
    }
    // There is just enough room.
    let mut f = Frame::new(SCREEN);
    assert!(popup().render(&mut f, Rect::new(0, 0, 20, 4)));
    match &f.draws[0] {
        Draw::Clear { area } => assert_eq!(*area, Rect::new(0, 0, 20, 4)),
        _ => panic!("the box is cleared first"),
    }
    // There is no room for the box.
    let mut f = Frame::new(SCREEN);
    assert!(!popup().render(&mut f, Rect::new(0, 0, 80, 2)));
    assert!(f.draws.is_empty());
}

#[test]
fn help_is_drawn() {
    let mut f = Frame::new(SCREEN);
    let areas = HelpAreas {
        introduction: Rect::new(0, 0, 50, 4),
        keys: Rect::new(0, 5, 50, 11),
        legend: Rect::new(0, 17, 50, 3),
    };
    draw_help(&mut f, areas);
    assert_eq!(f.draws.len(), 3);
    match &f.draws[0] {
        Draw::Paragraph { area, text, alignment: Alignment::Center, scroll: 0 } => {
            assert_eq!(*area, areas.introduction);
            assert_eq!(text.lines[0], Line::empty());
            assert_eq!(
                text.lines[1],
                Line::of(Span::styled("Welcome to Pipec!", plain().fg(Color::Cyan)))
            );
            assert_eq!(text.lines[3].spans[1], Span::styled("Enter", plain().fg(Color::Yellow)));
        }
        _ => panic!("the introduction comes first"),
    }
    match (&f.draws[1], &f.draws[2]) {
        (Draw::Paragraph { text: keys, .. }, Draw::Paragraph { text: legend, .. }) => {
            assert_eq!(keys.lines.len(), 11);
            assert_eq!(
                keys.lines[7],
                Line::of_two(
                    Span::styled("Ctrl-Shift-C ", plain().fg(Color::Yellow)),
                    Span::raw("Hard-stop execution (send KILL)"),
                )
            );
            assert_eq!(legend.lines[2], Line::of_two(status_failed_span(), Span::raw(" failed")));
        }
        _ => panic!("keys and signs come behind"),
    }
}

#[test]
fn help_is_placed_in_the_middle() {
    let mut f = Frame::new(SCREEN);
    render_help(&mut f, SCREEN);
    let areas: Vec<Rect> = f
        .draws
        .iter()
        .map(|draw| match draw {
            Draw::Paragraph { area, .. } => *area,
            _ => panic!("the help is made of paragraphs"),
        })
        .collect();
    assert_eq!(areas[0].width, 46);
    assert_eq!((areas[0].height, areas[1].height, areas[2].height), (4, 11, 3));
    assert_eq!(areas[1].y, areas[0].y + 5);
    assert_eq!(areas[2].y, areas[1].y + 12);
    assert_eq!((areas[0].x, areas[0].y), (17, 10));
}

/// Each stage takes one row, however much output there is.
#[test]
fn stages_take_one_row_each() {
    let commands: Vec<String> = (0..7).map(|i| i.to_string()).collect();
    let commands: Vec<&str> = commands.iter().map(|c| c.as_str()).collect();
    for height in 7..30 {
        for shown in 0..7 {
            for (output, errors) in [(false, false), (true, false), (false, true), (true, true)] {
                let mut app = running(&commands, false);
                app.shown_stage_index = shown;
                if output {
                    app.handle_stdout(shown, b"x");
                }
                if errors {
                    app.handle_stderr(shown, b"y");
                }
                let areas = app.arrange(Rect::new(0, 1, 80, height));
                for stage in &areas.stages {
                    assert_eq!((stage.command.height, stage.command.width), (1, 76));
                }
            }
        }
    }
}

#[test]
fn screen_shows_output_behind_the_shown_stage() {
    let mut app = running(&["a", "b", "c"], false);
    app.handle_action(Action::FocusPreviousStage);
    app.handle_action(Action::ShowStageOutput);
    app.handle_stdout(1, b"hello\nworld");
    let f = app.render(SCREEN).unwrap();
    assert_eq!(f.draws.len(), 10);
    let output = Rect::new(0, 2, 80, 37);
    match &f.draws[0] {
        Draw::Text { area, text, alignment: Alignment::Left } => {
            assert_eq!(*area, output);
            assert_eq!(text.lines.len(), 37);
            assert_eq!(text.lines[1], Line::of(Span::raw("world")));
            assert_eq!(text.style, plain());
        }
        _ => panic!("the output comes first"),
    }
    assert_eq!(command_of(&f.draws[2]), "a");
    assert_eq!(command_of(&f.draws[5]), "b");
    assert_eq!(command_of(&f.draws[8]), "c");
    // The cursor is behind the command of the focused stage.
    assert_eq!(f.cursor, Some(Position { x: 3, y: 1 }));
    match &f.draws[7] {
        Draw::Span { area, .. } => assert_eq!((area.x, area.y), (0, 39)),
        _ => panic!("stages begin with a sign"),
    }
}

#[test]
fn screen_shows_errors_below_output() {
    let mut app = running(&["a"], false);
    app.handle_stderr(0, b"oops");
    // Empty output gives way to errors.
    let f = app.render(SCREEN).unwrap();
    match &f.draws[0] {
        Draw::Text { area, text, .. } => {
            assert_eq!(*area, Rect::new(0, 1, 80, 39));
            assert_eq!(text.style, plain().fg(Color::Red));
        }
        _ => panic!("the errors come first"),
    }
    app.handle_stdout(0, b"fine");
    let f = app.render(SCREEN).unwrap();
    match (&f.draws[0], &f.draws[1]) {
        (Draw::Text { area: output, .. }, Draw::Text { area: errors, .. }) => {
            assert_eq!(output.y, 1);
            assert_eq!(output.y + output.height, errors.y);
            assert_eq!(output.height + errors.height, 39);
        }
        _ => panic!("output and errors come first"),
    }
}

#[test]
fn screen_shows_help_without_execution() {
    let mut app = running(&["a"], false);
    app.handle_action(Action::NewStageBelow);
    app.handle_action(Action::ShowStageOutput);
    let f = app.render(SCREEN).unwrap();
    assert_eq!(f.draws.len(), 3 + 6);
    assert_eq!(f.cursor, Some(Position { x: 2, y: 39 }));
    // A popup takes the place of the help.
    app.handle_input(Event::Key(KeyEvent {
        code: KeyCode::Char('q'),
        modifiers: KeyModifiers { bits: CONTROL },
        kind: KeyEventKind::Press,
    }));
    let f = app.render(SCREEN).unwrap();
    assert_eq!(f.draws.len(), 6 + 4);
    assert!(matches!(f.draws[6], Draw::Clear { .. }));
}

#[test]
fn screen_highlights_commands() {
    let app = running(&["echo 'a'"], true);
    let f = app.render(SCREEN).unwrap();
    match &f.draws[2] {
        Draw::Paragraph { text, .. } => assert!(text.lines[0].spans.len() > 1),
        _ => panic!("a command is drawn as a paragraph"),
    }
    assert_eq!(command_of(&f.draws[2]), "echo 'a'");
}

#[test]
fn screen_needs_room() {
    let mut app = running(&["a", "b"], false);
    assert!(app.render(Rect::new(0, 0, 0, 0)).is_none());
    app.handle_stdout(1, b"x");
    // No line is left for the output.
    assert!(app.render(Rect::new(0, 0, 80, 2)).is_none());
    assert!(app.render(Rect::new(0, 0, 80, 3)).is_some());
}

#[test]
fn given_places_are_used() {
    let mut app = running(&["a"], false);
    app.create_pending_execution(ExecutionMode::All);
    let places = ScreenAreas {
        help: None,
        output: Some(Rect::new(0, 1, 10, 2)),
        eoutput: None,
        stages: vec![areas(5, 10)],
        popup: None,
    };
    let f = app.compose(SCREEN, &places).unwrap();
    assert_eq!(f.draws.len(), 4);
    assert_eq!(f.area, SCREEN);
    assert_eq!(
        f.draws[0],
        Draw::Text {
            area: Rect::new(0, 1, 10, 2),
            text: Text::of(vec![Line::empty(), Line::empty()]),
            alignment: Alignment::Left,
        }
    );
    assert_eq!(f.cursor, Some(Position { x: 3, y: 5 }));
}

#[test]
fn unions_hold_both_areas() {
    assert_eq!(Rect::new(1, 2, 3, 4).union(Rect::new(2, 1, 9, 2)), Rect::new(1, 1, 10, 5));
    let far = Rect::new(65000, 0, 1000, 1);
    assert_eq!(far.union(Rect::new(0, 0, 1, 1)), Rect::new(0, 0, u16::MAX, 1));
    assert_eq!(Rect::new(1, 1, 2, 2).grow(), Some(Rect::new(0, 0, 4, 4)));
    assert_eq!(Rect::new(0, 1, 2, 2).grow(), None);
    assert_eq!(Rect::new(1, 1, u16::MAX - 1, 2).grow(), None);
}
