use bt::editor::App;
use bt::json::{JsonNumber, JsonValue};
use bt::response::SqlResponse;
use bt::session::{
    finish_query, handle_key_event, KeyCode, KeyEvent, KeyOutcome, Phase, Session,
};

fn key(code: KeyCode) -> KeyEvent {
    KeyEvent { code, control: false, alt: false }
}

fn control(ch: char) -> KeyEvent {
    KeyEvent { code: KeyCode::Char(ch), control: true, alt: false }
}

fn type_text(app: &mut App, text: &str) {
    for ch in text.chars() {
        assert_eq!(handle_key_event(app, key(KeyCode::Char(ch))), KeyOutcome::Continue);
    }
}

fn one_row() -> SqlResponse {
    SqlResponse {
        data: vec![vec![("n".to_string(), JsonValue::Number(JsonNumber::PosInt(1)))]],
        schema: JsonValue::Null,
        cursor: None,
        freshness_state: None,
        realtime_state: None,
        extra: vec![],
    }
}

#[test]
fn characters_are_inserted() {
    let mut app = App::new(false);
    type_text(&mut app, "sélect");
    assert_eq!(app.input(), "sélect");
    assert_eq!(app.cursor(), 7);
}

#[test]
fn characters_with_alt_are_inserted() {
    let mut app = App::new(false);
    let event = KeyEvent { code: KeyCode::Char('x'), control: false, alt: true };
    assert_eq!(handle_key_event(&mut app, event), KeyOutcome::Continue);
    assert_eq!(app.input(), "x");
    assert_eq!(app.cursor(), 1);
    let both = KeyEvent { code: KeyCode::Char('x'), control: true, alt: true };
    assert_eq!(handle_key_event(&mut app, both), KeyOutcome::Continue);
    assert_eq!(app.input(), "x");
}

#[test]
fn other_characters_with_control_do_nothing() {
    let mut app = App::new(false);
    type_text(&mut app, "ab");
    app.set_output("out".to_string());
    for ch in ['a', 'x', 'C', 'D', 'L'] {
        assert_eq!(handle_key_event(&mut app, control(ch)), KeyOutcome::Continue);
    }
    assert_eq!(app.input(), "ab");
    assert_eq!(app.output(), "out");
    assert_eq!(app.status(), "Enter SQL and press Enter. Ctrl+C to exit.");
}

#[test]
fn control_c_clears_the_input_and_stays() {
    let mut app = App::new(false);
    type_text(&mut app, "select 1");
    app.set_output("out".to_string());
    assert_eq!(handle_key_event(&mut app, control('c')), KeyOutcome::Continue);
    assert_eq!(app.input(), "");
    assert_eq!(app.cursor(), 0);
    assert_eq!(app.status(), "Cleared input");
    assert_eq!(app.output(), "out");
}

#[test]
fn control_l_clears_the_output_only() {
    let mut app = App::new(false);
    type_text(&mut app, "select 1");
    app.set_output("out".to_string());
    assert_eq!(handle_key_event(&mut app, control('l')), KeyOutcome::Continue);
    assert_eq!(app.input(), "select 1");
    assert_eq!(app.output(), "");
    assert_eq!(app.status(), "Enter SQL and press Enter. Ctrl+C to exit.");
}

#[test]
fn escape_and_control_d_leave() {
    let mut app = App::new(false);
    type_text(&mut app, "select 1");
    assert_eq!(handle_key_event(&mut app, key(KeyCode::Esc)), KeyOutcome::Exit);
    assert_eq!(handle_key_event(&mut app, control('d')), KeyOutcome::Exit);
    assert_eq!(app.input(), "select 1");
    let both = KeyEvent { code: KeyCode::Char('d'), control: true, alt: true };
    assert_eq!(handle_key_event(&mut app, both), KeyOutcome::Exit);
}

#[test]
fn enter_on_a_blank_buffer_does_nothing() {
    let mut app = App::new(false);
    assert_eq!(handle_key_event(&mut app, key(KeyCode::Enter)), KeyOutcome::Continue);
    type_text(&mut app, "  \t ");
    assert_eq!(handle_key_event(&mut app, key(KeyCode::Enter)), KeyOutcome::Continue);
    assert_eq!(app.input(), "  \t ");
    assert_eq!(app.status(), "Enter SQL and press Enter. Ctrl+C to exit.");
    assert!(app.history().is_empty());
}

#[test]
fn enter_sends_the_trimmed_query() {
    let mut app = App::new(false);
    type_text(&mut app, "  select 1 ");
    assert_eq!(
        handle_key_event(&mut app, key(KeyCode::Enter)),
        KeyOutcome::Run("select 1".to_string())
    );
    assert_eq!(app.status(), "Running query...");
    assert_eq!(app.input(), "  select 1 ");
    assert!(app.history().is_empty());
}

#[test]
fn answer_is_shown_and_query_remembered() {
    let mut app = App::new(false);
    type_text(&mut app, "select 1");
    handle_key_event(&mut app, key(KeyCode::Enter));
    finish_query(&mut app, "select 1", Ok(&one_row()));
    assert_eq!(app.output(), "+---+\n| n |\n+---+\n| 1 |\n+---+");
    assert_eq!(app.status(), "OK");
    assert_eq!(app.history(), &vec!["select 1".to_string()]);
    assert_eq!(app.input(), "");
    assert_eq!(app.cursor(), 0);
    assert_eq!(app.history_index(), None);
}

#[test]
fn answer_is_shown_as_json_where_asked() {
    let mut app = App::new(true);
    finish_query(&mut app, "select 1", Ok(&one_row()));
    assert_eq!(
        app.output(),
        "{\"data\":[{\"n\":1}],\"schema\":null,\"cursor\":null,\"freshness_state\":null,\"realtime_state\":null}"
    );
    assert_eq!(app.status(), "OK");
}

#[test]
fn failure_is_shown_and_session_goes_on() {
    let mut app = App::new(false);
    type_text(&mut app, "select");
    assert_eq!(
        handle_key_event(&mut app, key(KeyCode::Enter)),
        KeyOutcome::Run("select".to_string())
    );
    finish_query(&mut app, "select", Err("request failed (400 Bad Request): syntax"));
    assert_eq!(app.output(), "Error: request failed (400 Bad Request): syntax");
    assert_eq!(app.status(), "Error");
    assert_eq!(app.history(), &vec!["select".to_string()]);
    assert_eq!(app.input(), "");
    type_text(&mut app, "x");
    assert_eq!(app.input(), "x");
}

#[test]
fn editing_keys_reach_the_editor() {
    let mut app = App::new(false);
    type_text(&mut app, "abc");
    handle_key_event(&mut app, key(KeyCode::Left));
    assert_eq!(app.cursor(), 2);
    handle_key_event(&mut app, key(KeyCode::Backspace));
    assert_eq!(app.input(), "ac");
    handle_key_event(&mut app, key(KeyCode::Delete));
    assert_eq!(app.input(), "a");
    handle_key_event(&mut app, key(KeyCode::Home));
    assert_eq!(app.cursor(), 0);
    handle_key_event(&mut app, key(KeyCode::Right));
    assert_eq!(app.cursor(), 1);
    handle_key_event(&mut app, key(KeyCode::Home));
    handle_key_event(&mut app, key(KeyCode::End));
    assert_eq!(app.cursor(), 1);
    assert_eq!(handle_key_event(&mut app, key(KeyCode::Other)), KeyOutcome::Continue);
    assert_eq!(app.input(), "a");
}

#[test]
fn arrows_browse_the_history() {
    let mut app = App::new(false);
    finish_query(&mut app, "q1", Err("no"));
    finish_query(&mut app, "q2", Err("no"));
    finish_query(&mut app, "q2", Err("no"));
    assert_eq!(app.history(), &vec!["q1".to_string(), "q2".to_string()]);
    handle_key_event(&mut app, key(KeyCode::Up));
    assert_eq!(app.input(), "q2");
    handle_key_event(&mut app, key(KeyCode::Up));
    assert_eq!(app.input(), "q1");
    handle_key_event(&mut app, key(KeyCode::Down));
    assert_eq!(app.input(), "q2");
    handle_key_event(&mut app, key(KeyCode::Down));
    assert_eq!(app.input(), "");
    assert_eq!(app.history_index(), None);
}

fn type_into(session: &mut Session, text: &str) {
    for ch in text.chars() {
        assert_eq!(session.on_key(key(KeyCode::Char(ch))), KeyOutcome::Continue);
    }
}

#[test]
fn new_session_is_idle() {
    let session = Session::new(true);
    assert_eq!(session.phase(), &Phase::Idle);
    assert_eq!(session.app().input(), "");
    assert!(session.app().json_output());
}

#[test]
fn enter_starts_the_wait_for_the_answer() {
    let mut session = Session::new(false);
    type_into(&mut session, " select 1 ");
    assert_eq!(session.phase(), &Phase::Idle);
    assert_eq!(
        session.on_key(key(KeyCode::Enter)),
        KeyOutcome::Run("select 1".to_string())
    );
    assert_eq!(session.phase(), &Phase::Running("select 1".to_string()));
    assert_eq!(session.app().status(), "Running query...");
}

#[test]
fn keys_are_ignored_while_a_query_is_under_way() {
    let mut session = Session::new(false);
    type_into(&mut session, "select 1");
    session.on_key(key(KeyCode::Enter));
    for event in [
        key(KeyCode::Char('x')),
        key(KeyCode::Enter),
        key(KeyCode::Backspace),
        key(KeyCode::Up),
        key(KeyCode::Esc),
        control('c'),
        control('d'),
        control('l'),
    ] {
        assert_eq!(session.on_key(event), KeyOutcome::Continue);
        assert_eq!(session.phase(), &Phase::Running("select 1".to_string()));
        assert_eq!(session.app().input(), "select 1");
        assert_eq!(session.app().status(), "Running query...");
    }
}

#[test]
fn the_answer_returns_the_session_to_idle() {
    let mut session = Session::new(false);
    type_into(&mut session, "select 1");
    session.on_key(key(KeyCode::Enter));
    session.on_result(Ok(&one_row()));
    assert_eq!(session.phase(), &Phase::Idle);
    assert_eq!(session.app().output(), "+---+\n| n |\n+---+\n| 1 |\n+---+");
    assert_eq!(session.app().status(), "OK");
    assert_eq!(session.app().history(), &vec!["select 1".to_string()]);
    assert_eq!(session.app().input(), "");
    type_into(&mut session, "select 2");
    assert_eq!(
        session.on_key(key(KeyCode::Enter)),
        KeyOutcome::Run("select 2".to_string())
    );
    session.on_result(Err("timeout"));
    assert_eq!(session.phase(), &Phase::Idle);
    assert_eq!(session.app().output(), "Error: timeout");
    assert_eq!(session.app().status(), "Error");
    assert_eq!(
        session.app().history(),
        &vec!["select 1".to_string(), "select 2".to_string()]
    );
}

#[test]
fn an_answer_without_a_query_is_dropped() {
    let mut session = Session::new(false);
    type_into(&mut session, "sel");
    session.on_result(Err("late"));
    assert_eq!(session.phase(), &Phase::Idle);
    assert_eq!(session.app().input(), "sel");
    assert_eq!(session.app().output(), "");
    assert!(session.app().history().is_empty());
}

#[test]
fn a_session_that_was_left_stays_left() {
    let mut session = Session::new(false);
    type_into(&mut session, "sel");
    assert_eq!(session.on_key(key(KeyCode::Esc)), KeyOutcome::Exit);
    assert_eq!(session.phase(), &Phase::Terminating);
    assert_eq!(session.on_key(key(KeyCode::Char('x'))), KeyOutcome::Exit);
    assert_eq!(session.on_key(key(KeyCode::Enter)), KeyOutcome::Exit);
    session.on_result(Err("late"));
    assert_eq!(session.phase(), &Phase::Terminating);
    assert_eq!(session.app().input(), "sel");
    assert_eq!(session.app().output(), "");
    let mut session = Session::new(false);
    assert_eq!(session.on_key(control('d')), KeyOutcome::Exit);
    assert_eq!(session.phase(), &Phase::Terminating);
}
