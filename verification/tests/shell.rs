use jelly::headless::ConfigurationSession;
use jelly::headless::SessionAction;
use jelly::headless::SessionEvent;
use jelly::app::handler::App;
use jelly::app::handler::Key;
use jelly::app::handler::KeyOutcome;
use jelly::app::handler::Outgoing;
use jelly::command::request::Method;
use jelly::datatypes::coap_log::CoapMessage;
use jelly::datatypes::coap_log::CodeClass;
use jelly::datatypes::coap_log::ContentFormatInfo;

fn response(token: Vec<u8>, payload: &[u8]) -> CoapMessage {
    CoapMessage {
        code: 69,
        class: CodeClass::Response,
        code_name: "Content".to_string(),
        status_is_error: false,
        token,
        uri_path: None,
        content_format: None,
        payload: payload.to_vec(),
    }
}

fn type_line(app: &mut App, line: &str) {
    for c in line.chars() {
        assert_eq!(app.on_key(Key::Char(c)), KeyOutcome::Continue);
    }
}

fn connected_app() -> App {
    let mut app = App::new(100);
    app.on_connect("/dev/ttyACM0".to_string());
    app
}

#[test]
fn connecting_asks_for_resources_board_and_version() {
    let mut app = connected_app();
    assert!(app.is_connected());
    assert_eq!(app.device_info().0, Some("/dev/ttyACM0"));
    let out = app.take_outbox();
    assert_eq!(out.len(), 3);
    let expected = [("/.well-known/core", 1u8, 101u16), ("/jelly/board", 2, 102), ("/jelly/ver", 3, 103)];
    for (o, (path, t, mid)) in out.iter().zip(expected.iter()) {
        match o {
            Outgoing::Configuration(r) => {
                assert_eq!(r.plan.path, *path);
                assert!(matches!(r.plan.method, Method::Get));
                assert_eq!(r.token, vec![*t, 0]);
                assert_eq!(r.message_id, Some(*mid));
                assert!(r.block2);
            }
            _ => panic!("expected a configuration request"),
        }
    }
    assert_eq!(app.take_outbox().len(), 0);
    assert_eq!(app.configuration_log().requests.len(), 3);
}

#[test]
fn message_ids_wrap_around() {
    let mut app = App::new(u16::MAX);
    app.on_connect("x".to_string());
    let ids: Vec<Option<u16>> = app
        .take_outbox()
        .iter()
        .map(|o| match o {
            Outgoing::Configuration(r) => r.message_id,
            _ => None,
        })
        .collect();
    assert_eq!(ids, vec![Some(0), Some(1), Some(2)]);
}

#[test]
fn enter_commits_only_while_connected() {
    let mut app = App::new(0);
    type_line(&mut app, "version");
    assert_eq!(app.on_key(Key::Enter), KeyOutcome::Continue);
    app.on_connect("x".to_string());
    assert_eq!(app.on_key(Key::Enter), KeyOutcome::Commit);
    assert_eq!(app.on_key(Key::Esc), KeyOutcome::Quit);
    assert_eq!(app.on_key(Key::CtrlC), KeyOutcome::Quit);
    assert_eq!(app.on_key(Key::F(1)), KeyOutcome::ShowOverview);
    assert_eq!(app.on_key(Key::F(5)), KeyOutcome::ShowHelp);
    assert_eq!(app.on_key(Key::F(12)), KeyOutcome::ShowHelp);
    assert_eq!(app.on_key(Key::F(9)), KeyOutcome::Continue);
}

#[test]
fn text_line_is_sent_as_diagnostic_message_with_newline() {
    let mut app = connected_app();
    app.take_outbox();
    type_line(&mut app, "version");
    assert!(app.pending_command().is_none());
    assert!(app.ready_to_commit(&None));
    app.handle_command_commit(None);
    let out = app.take_outbox();
    assert_eq!(out.len(), 1);
    match &out[0] {
        Outgoing::Diagnostic(s) => assert_eq!(s, "version\n"),
        _ => panic!("expected a diagnostic message"),
    }
    assert_eq!(app.user_input_manager().user_input(), "");
}

#[test]
fn raw_coap_line_is_a_get_with_the_next_token() {
    let mut app = connected_app();
    app.take_outbox();
    type_line(&mut app, "/riot/board");
    app.handle_command_commit(None);
    let out = app.take_outbox();
    assert_eq!(out.len(), 1);
    match &out[0] {
        Outgoing::Configuration(r) => {
            assert_eq!(r.plan.path, "/riot/board");
            assert_eq!(r.token, vec![4, 0]);
            assert_eq!(r.message_id, None);
            assert!(!r.block2);
        }
        _ => panic!("expected a configuration request"),
    }
    assert_eq!(app.configuration_log().requests.len(), 4);
}

#[test]
fn raw_root_path_asks_for_no_path() {
    let mut app = connected_app();
    app.take_outbox();
    type_line(&mut app, "/");
    app.handle_command_commit(None);
    match &app.take_outbox()[0] {
        Outgoing::Configuration(r) => assert_eq!(r.plan.path, ""),
        _ => panic!("expected a configuration request"),
    }
    assert!(app.configuration_log().requests[3].req.uri_path.is_none());
}

#[test]
fn board_and_version_answers_are_remembered() {
    let mut app = connected_app();
    let board = response(vec![2, 0], b"nrf52840dk");
    assert!(app.accepts_response(&board));
    app.on_configuration_msg(board, "");
    let version = response(vec![3, 0], b"2024.07");
    app.on_configuration_msg(version, "");
    assert_eq!(app.device_info().1, Some("nrf52840dk"));
    assert_eq!(app.device_info().2, Some("2024.07"));
    assert_eq!(app.configuration_log().requests[1].res.len(), 1);
    assert_eq!(app.configuration_log().requests[0].res.len(), 0);
}

#[test]
fn well_known_core_answer_teaches_commands() {
    let mut app = connected_app();
    app.take_outbox();
    let wkc = response(vec![1, 0], b"</shell/reboot>,</jelly/board>;ct=0,junk");
    assert!(app.accepts_response(&wkc));
    app.on_configuration_msg(wkc, "");
    let names = app.user_input_manager().command_name_list();
    assert!(names.contains("reboot"));
    assert!(names.contains("/shell/reboot"));
    assert!(names.contains("/jelly/board"));
    let out = app.take_outbox();
    assert_eq!(out.len(), 1);
    match &out[0] {
        Outgoing::Configuration(r) => {
            assert_eq!(r.plan.path, "/shell/reboot");
            assert_eq!(r.token, vec![4, 0]);
        }
        _ => panic!("expected a configuration request"),
    }
    assert!(app.user_input_manager().command_exists_by_location("/shell/reboot"));
}

#[test]
fn unmatched_answer_is_kept_apart() {
    let mut app = connected_app();
    app.on_configuration_msg(response(vec![9, 9], b"?"), "");
    for q in &app.configuration_log().requests {
        assert_eq!(q.res.len(), 0);
    }
}

#[test]
fn job_runs_until_its_answer_and_shows_it() {
    let mut app = connected_app();
    app.take_outbox();
    app.force_all_commands_availabe();
    type_line(&mut app, "Wkc");
    let (cmd, line) = app.pending_command().expect("Wkc is a command with end-points");
    assert!(!cmd.needs_arguments());
    assert_eq!(line, "Wkc");
    assert!(app.ready_to_commit(&None));
    app.handle_command_commit(None);
    assert_eq!(app.unfinished_jobs_count(), 1);
    let out = app.take_outbox();
    let token = match &out[0] {
        Outgoing::Configuration(r) => {
            assert_eq!(r.plan.path, "/.well-known/core");
            r.token.clone()
        }
        _ => panic!("expected a configuration request"),
    };
    let answer = response(token, b"</a>,</b>");
    assert!(app.accepts_response(&answer));
    app.on_configuration_msg(answer, "");
    assert_eq!(app.unfinished_jobs_count(), 0);
    let dump = app.dump_job_log();
    assert_eq!(dump, vec!["</a>\n</b>\n".to_string()]);
    let overall: Vec<String> = app.logs().1.diagnostics().iter().map(|d| d.message.clone()).collect();
    assert_eq!(overall, vec!["Wkc".to_string(), "> </a>".to_string(), "</b>".to_string()]);
}

#[test]
fn the_job_log_text_follows_the_order_of_the_lines() {
    let mut app = connected_app();
    app.take_outbox();
    app.force_all_commands_availabe();
    let mut tokens = Vec::new();
    for _ in 0..2 {
        type_line(&mut app, "Wkc");
        app.handle_command_commit(None);
        match &app.take_outbox()[0] {
            Outgoing::Configuration(r) => tokens.push(r.token.clone()),
            _ => panic!("expected a configuration request"),
        }
    }
    assert_eq!(app.unfinished_jobs_count(), 2);
    app.on_configuration_msg(response(tokens[1].clone(), b"</second>"), "");
    app.on_configuration_msg(response(tokens[0].clone(), b"</first>"), "");
    assert_eq!(app.unfinished_jobs_count(), 0);
    assert_eq!(app.job_log_text(), "</first>\n</second>\n");
}

#[test]
fn disconnect_forgets_the_device() {
    let mut app = connected_app();
    app.on_disconnect();
    assert!(!app.is_connected());
    assert_eq!(app.device_info().0, None);
    assert_eq!(app.configuration_log().requests.len(), 3);
}

#[test]
fn diagnostic_messages_go_to_both_logs() {
    let mut app = App::new(0);
    app.on_diagnostic_msg("hello\nworld");
    let d: Vec<String> = app.logs().0.diagnostics().iter().map(|d| d.message.clone()).collect();
    let o: Vec<String> = app.logs().1.diagnostics().iter().map(|d| d.message.clone()).collect();
    assert_eq!(d, vec!["hello".to_string(), "world".to_string()]);
    assert_eq!(d, o);
}

#[test]
fn line_read_from_stdin_asks_for_commit_at_newline() {
    let mut app = App::new(0);
    assert!(!app.on_msg_string("ver"));
    assert!(app.on_msg_string("sion\n"));
    assert_eq!(app.user_input_manager().user_input(), "version\n");
}

#[test]
fn headless_session_shows_output_after_input_ends_and_jobs_finish() {
    let mut s = ConfigurationSession::new();
    assert!(matches!(s.on_event(SessionEvent::Timeout), SessionAction::Wait));
    assert!(matches!(s.on_event(SessionEvent::Line), SessionAction::Take));
    assert!(!s.done(0));
    assert!(matches!(s.on_event(SessionEvent::Eof), SessionAction::Wait));
    assert!(!s.done(1));
    assert!(s.done(0));
    assert!(matches!(s.on_event(SessionEvent::Configuration), SessionAction::Take));
    match s.on_event(SessionEvent::Timeout) {
        SessionAction::Stop(t) => assert_eq!(t, "\nTime-out, no response from device :("),
        _ => panic!("a time-out after the end of the input ends the session"),
    }
    let mut open = ConfigurationSession::new();
    match open.on_event(SessionEvent::Disconnect) {
        SessionAction::Stop(t) => assert_eq!(t, "\nSerial disconnect :("),
        _ => panic!("a disconnect ends the session"),
    }
}

#[test]
fn can_not_commit_input_when_not_connected() {
    let mut app = App::new(0);
    type_line(&mut app, "asdf");
    assert_eq!(app.on_key(Key::Enter), KeyOutcome::Continue);
    assert!(!app.is_connected());
    assert_eq!(app.user_input_manager().user_input(), "asdf");
    assert_eq!(app.take_outbox().len(), 0);
    assert_eq!(app.configuration_log().requests.len(), 0);
}

#[test]
fn can_commit_input_when_connected() {
    let mut app = App::new(0);
    app.on_connect("/dev/ttyUSB0".to_string());
    type_line(&mut app, "asdf");
    assert_eq!(app.on_key(Key::Enter), KeyOutcome::Commit);
    app.handle_command_commit(None);
    assert!(app.is_connected());
    assert_eq!(app.device_info().0, Some("/dev/ttyUSB0"));
    assert_eq!(app.user_input_manager().user_input(), "");
    let paths: Vec<String> = app.configuration_log().requests.iter().map(|r| r.get_request_title_short()).collect();
    assert_eq!(paths.len(), 3);
    let out = app.take_outbox();
    match out.last() {
        Some(Outgoing::Diagnostic(s)) => assert_eq!(s, "asdf\n"),
        _ => panic!("the line goes out as a diagnostic message"),
    }
    let names = app.user_input_manager().command_name_list();
    assert!(names.starts_with("help, Help, ForceCmdsAvailable"));
}

#[test]
fn autocomplete() {
    let mut app = App::new(0);
    assert_eq!(app.on_key(Key::Char('H')), KeyOutcome::Continue);
    let (suggestion, cmds) = app.user_input_manager().suggestion();
    assert_eq!(suggestion, "Help");
    assert_eq!(cmds.len(), 1);
    assert_eq!(cmds[0].description, "Jelly Help");
    app.on_key(Key::Tab);
    assert_eq!(app.user_input_manager().user_input(), "Help");
    assert_eq!(app.user_input_manager().cursor_position(), 4);
    // move the cursor one left: Hel_p
    app.on_key(Key::Left);
    for _ in 0..5 {
        app.on_key(Key::Backspace);
    }
    // no matter how often backspace is hit, what is left is _p
    assert_eq!(app.user_input_manager().user_input(), "p");
    assert_eq!(app.user_input_manager().cursor_position(), 0);
    app.on_key(Key::Right);
    app.on_key(Key::Backspace);
    assert_eq!(app.user_input_manager().user_input(), "");
    assert!(app.user_input_manager().input_empty());
}

#[test]
fn right_at_the_end_completes_like_tab() {
    let mut app = App::new(0);
    app.on_key(Key::Char('H'));
    app.on_key(Key::Right);
    assert_eq!(app.user_input_manager().user_input(), "Help");
    assert_eq!(app.user_input_manager().cursor_position(), 4);
}

#[test]
fn the_shell_starts_with_the_defaults_and_the_commands_needing_no_endpoint() {
    let app = App::new(0);
    let names = app.user_input_manager().command_name_list();
    for n in ["help", "/.well-known/core", "Help", "ForceCmdsAvailable"] {
        assert!(names.split(", ").any(|x| x == n), "{n} missing from {names}");
    }
    assert_eq!(names.split(", ").count(), 4);
    assert!(names.starts_with("help, "));
}

#[test]
fn history_keeps_a_repeated_command_once() {
    let mut app = App::new(0);
    app.on_connect("x".to_string());
    type_line(&mut app, "ls");
    app.handle_command_commit(None);
    type_line(&mut app, "ls ");
    app.handle_command_commit(None);
    app.on_key(Key::Up);
    assert_eq!(app.user_input_manager().user_input(), "ls");
    assert_eq!(app.user_input_manager().cursor_position(), 2);
    // with one entry, going down from it leaves the history
    app.on_key(Key::Down);
    assert_eq!(app.user_input_manager().user_input(), "");
}
