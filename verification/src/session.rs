//! What a key does to the session, and what the answer to a query does.
//!
//! The terminal and the service are not touched here. A key is handled up
//! to the point where a query has to be sent; the caller sends it and hands
//! the answer back. A [`Session`] keeps track of where the caller stands:
//! it takes keys while it is idle, waits for the answer while a query is
//! under way, and takes nothing once it has been left.

use vstd::prelude::*;
use vstd::string::*;
use crate::editor::{App, AppView};
use crate::response::{format_response, ResponseModel, SqlResponse};
use crate::text::{
    is_blank, is_whitespace, lemma_blank, lemma_trimmed_not_blank, lemma_trimmed_tight, trimmed,
};

verus! {

/// The key that was pressed.
#[derive(Clone, Copy, Debug, PartialEq, Eq)]
pub enum KeyCode {
    Backspace,
    Enter,
    Left,
    Right,
    Up,
    Down,
    Home,
    End,
    Delete,
    Esc,
    Char(char),
    /// Any key that the session has no use for.
    Other,
}

/// A key together with the modifiers held while it was pressed. Only
/// control changes what a key does.
#[derive(Clone, Copy, Debug, PartialEq, Eq)]
pub struct KeyEvent {
    pub code: KeyCode,
    pub control: bool,
    pub alt: bool,
}

/// What the caller has to do after a key.
#[derive(Debug, PartialEq, Eq)]
pub enum KeyOutcome {
    /// Go on with the next event.
    Continue,
    /// Leave the session.
    Exit,
    /// Send this query, then call [`finish_query`] with the answer.
    Run(String),
}

/// The model of a [`KeyOutcome`].
pub enum OutcomeModel {
    Continue,
    Exit,
    Run(Seq<char>),
}

impl View for KeyOutcome {
    type V = OutcomeModel;

    open spec fn view(&self) -> OutcomeModel {
        match self {
            KeyOutcome::Continue => OutcomeModel::Continue,
            KeyOutcome::Exit => OutcomeModel::Exit,
            KeyOutcome::Run(query) => OutcomeModel::Run(query@),
        }
    }
}

/// The state after a key.
///
/// With control held, `c` clears the input and says so in the status line,
/// `l` clears the output, and no other character does anything. A character
/// without control is inserted, whatever else is held. Enter on a buffer
/// that is not blank announces the query in the status line. The editing
/// keys do what the editor says.
pub open spec fn after_key(v: AppView, key: KeyEvent) -> AppView {
    match key.code {
        KeyCode::Char(c) => if key.control {
            if c == 'c' {
                AppView { status: "Cleared input"@, ..v.clear_input() }
            } else if c == 'l' {
                AppView { output: Seq::empty(), ..v }
            } else {
                v
            }
        } else {
            v.insert_char(c)
        },
        KeyCode::Enter => if is_blank(v.input) {
            v
        } else {
            AppView { status: "Running query..."@, ..v }
        },
        KeyCode::Backspace => v.backspace(),
        KeyCode::Delete => v.delete(),
        KeyCode::Left => v.move_left(),
        KeyCode::Right => v.move_right(),
        KeyCode::Home => v.move_home(),
        KeyCode::End => v.move_end(),
        KeyCode::Up => v.history_prev(),
        KeyCode::Down => v.history_next(),
        KeyCode::Esc => v,
        KeyCode::Other => v,
    }
}

/// What a key asks of the caller: Escape and control with `d` end the
/// session, Enter on a buffer that is not blank sends its trimmed text, and
/// every other key goes on.
pub open spec fn outcome_of(v: AppView, key: KeyEvent) -> OutcomeModel {
    match key.code {
        KeyCode::Char(c) => if key.control && c == 'd' {
            OutcomeModel::Exit
        } else {
            OutcomeModel::Continue
        },
        KeyCode::Esc => OutcomeModel::Exit,
        KeyCode::Enter => if is_blank(v.input) {
            OutcomeModel::Continue
        } else {
            OutcomeModel::Run(trimmed(v.input))
        },
        _ => OutcomeModel::Continue,
    }
}

/// Enter on a buffer that neither starts nor ends with whitespace sends the
/// buffer as it is; Enter on a buffer of whitespace alone sends nothing.
pub proof fn lemma_enter(v: AppView, key: KeyEvent)
    requires
        key.code is Enter,
    ensures
        v.input.len() > 0 && !is_whitespace(v.input.first()) && !is_whitespace(v.input.last())
            ==> outcome_of(v, key) == OutcomeModel::Run(v.input),
        (forall|i: int| 0 <= i < v.input.len() ==> is_whitespace(#[trigger] v.input[i]))
            ==> outcome_of(v, key) == OutcomeModel::Continue && after_key(v, key) == v,
{
    lemma_blank(v.input);
    if v.input.len() > 0 && !is_whitespace(v.input.first()) && !is_whitespace(v.input.last()) {
        lemma_trimmed_tight(v.input);
    }
}

/// The text shown for a query that failed with the given message.
pub open spec fn error_text(message: Seq<char>) -> Seq<char> {
    "Error: "@ + message
}

/// The state after the answer to `query` has come: the response or the
/// error is shown, the query is added to the history, and the input is
/// cleared.
pub open spec fn after_query(
    v: AppView,
    query: Seq<char>,
    result: Result<ResponseModel, Seq<char>>,
) -> AppView {
    let shown = match result {
        Ok(response) => AppView {
            output: response.formatted(v.json_output),
            status: "OK"@,
            ..v
        },
        Err(message) => AppView { output: error_text(message), status: "Error"@, ..v },
    };
    shown.push_history(query).clear_input()
}

/// Applies a key to the session and says what the caller has to do next.
pub fn handle_key_event(app: &mut App, key: KeyEvent) -> (outcome: KeyOutcome)
    requires
        old(app).wf(),
    ensures
        final(app).wf(),
        final(app)@ == after_key(old(app)@, key),
        outcome@ == outcome_of(old(app)@, key),
{
    match key.code {
        KeyCode::Char(ch) => {
            if key.control {
                if ch == 'c' {
                    app.clear_input();
                    app.set_status("Cleared input".to_owned());
                } else if ch == 'd' {
                    return KeyOutcome::Exit;
                } else if ch == 'l' {
                    app.clear_output();
                }
            } else {
                app.insert_char(ch);
            }
        },
        KeyCode::Esc => {
            return KeyOutcome::Exit;
        },
        KeyCode::Enter => {
            let query = app.input().trim().to_owned();
            if query.as_str().is_empty() {
                return KeyOutcome::Continue;
            }
            app.set_status("Running query...".to_owned());
            return KeyOutcome::Run(query);
        },
        KeyCode::Backspace => app.backspace(),
        KeyCode::Delete => app.delete(),
        KeyCode::Left => app.move_left(),
        KeyCode::Right => app.move_right(),
        KeyCode::Home => app.move_home(),
        KeyCode::End => app.move_end(),
        KeyCode::Up => app.history_prev(),
        KeyCode::Down => app.history_next(),
        KeyCode::Other => {},
    }
    KeyOutcome::Continue
}

/// The model of the answer to a query.
pub open spec fn result_model(result: Result<&SqlResponse, &str>) -> Result<
    ResponseModel,
    Seq<char>,
> {
    match result {
        Ok(response) => Ok(response@),
        Err(message) => Err(message@),
    }
}

/// Shows the answer to `query`, adds the query to the history and clears
/// the input. A failure is shown as text; it does not end the session.
pub fn finish_query(app: &mut App, query: &str, result: Result<&SqlResponse, &str>)
    requires
        old(app).wf(),
    ensures
        final(app).wf(),
        final(app)@ == after_query(old(app)@, query@, result_model(result)),
{
    match result {
        Ok(response) => {
            let text = format_response(response, app.json_output());
            app.set_output(text);
            app.set_status("OK".to_owned());
        },
        Err(message) => {
            let mut text = "Error: ".to_owned();
            text.push_str(message);
            app.set_output(text);
            app.set_status("Error".to_owned());
        },
    }
    app.push_history(query);
    app.clear_input();
}

/// Where a session stands.
#[derive(Debug, PartialEq, Eq)]
pub enum Phase {
    /// Waiting for a key.
    Idle,
    /// Waiting for the answer to the query held here.
    Running(String),
    /// Left; nothing happens any more.
    Terminating,
}

/// The model of a [`Phase`].
pub enum PhaseModel {
    Idle,
    Running(Seq<char>),
    Terminating,
}

impl View for Phase {
    type V = PhaseModel;

    open spec fn view(&self) -> PhaseModel {
        match self {
            Phase::Idle => PhaseModel::Idle,
            Phase::Running(query) => PhaseModel::Running(query@),
            Phase::Terminating => PhaseModel::Terminating,
        }
    }
}

/// The model of a [`Session`].
pub struct SessionView {
    pub app: AppView,
    pub phase: PhaseModel,
}

impl SessionView {
    /// The editor is well formed, every entry of the history is trimmed,
    /// and a query under way is trimmed and not blank.
    pub open spec fn wf(self) -> bool {
        &&& self.app.wf()
        &&& forall|i: int|
            0 <= i < self.app.history.len() ==> trimmed(#[trigger] self.app.history[i])
                == self.app.history[i]
        &&& (self.phase matches PhaseModel::Running(query) ==> !is_blank(query) && trimmed(query)
            == query)
    }

    /// The session after a key. Keys count while the session is idle, and
    /// only then: the key that sends a query starts the wait for its
    /// answer, and the key that ends the session leaves it.
    pub open spec fn on_key(self, key: KeyEvent) -> SessionView {
        match self.phase {
            PhaseModel::Idle => SessionView {
                app: after_key(self.app, key),
                phase: match outcome_of(self.app, key) {
                    OutcomeModel::Continue => PhaseModel::Idle,
                    OutcomeModel::Exit => PhaseModel::Terminating,
                    OutcomeModel::Run(query) => PhaseModel::Running(query),
                },
            },
            _ => self,
        }
    }

    /// What a key asks of the caller: what it asks of an idle session, to
    /// leave a session that has been left, and nothing while a query is
    /// under way.
    pub open spec fn key_outcome(self, key: KeyEvent) -> OutcomeModel {
        match self.phase {
            PhaseModel::Idle => outcome_of(self.app, key),
            PhaseModel::Running(_) => OutcomeModel::Continue,
            PhaseModel::Terminating => OutcomeModel::Exit,
        }
    }

    /// The session after an answer has come. An answer counts while a query
    /// is under way, and only then: it is shown as the answer to that query,
    /// and the session is idle again.
    pub open spec fn on_result(self, result: Result<ResponseModel, Seq<char>>) -> SessionView {
        match self.phase {
            PhaseModel::Running(query) => SessionView {
                app: after_query(self.app, query, result),
                phase: PhaseModel::Idle,
            },
            _ => self,
        }
    }

    /// While a query is under way no key sends another one, and no key
    /// changes what the session holds.
    pub proof fn lemma_one_query_at_a_time(self, key: KeyEvent)
        requires
            self.phase is Running,
        ensures
            self.on_key(key) == self,
            !(self.key_outcome(key) is Run),
    {
    }

    /// A query is sent exactly when an idle session turns to waiting for
    /// its answer, and the query sent is the one waited for.
    pub proof fn lemma_run_starts_the_wait(self, key: KeyEvent)
        ensures
            self.key_outcome(key) is Run <==> self.phase is Idle && self.on_key(key).phase
                is Running,
            self.key_outcome(key) matches OutcomeModel::Run(query) ==> self.on_key(key).phase
                == PhaseModel::Running(query),
    {
    }

    /// The answer to a query is shown, and the query is in the history,
    /// before the session takes a key again.
    pub proof fn lemma_answer_comes_first(self, result: Result<ResponseModel, Seq<char>>)
        requires
            self.wf(),
            self.phase is Running,
        ensures
            self.on_result(result).wf(),
            self.on_result(result).phase is Idle,
            self.on_result(result).app.history.len() > 0,
            self.on_result(result).app.history.last() == self.phase->Running_0,
            self.on_result(result).app.input.len() == 0,
            self.on_result(result).app.history_index is None,
    {
    }

    /// Keys keep a well-formed session well formed.
    pub proof fn lemma_on_key_wf(self, key: KeyEvent)
        requires
            self.wf(),
        ensures
            self.on_key(key).wf(),
    {
        lemma_trimmed_not_blank(self.app.input);
    }

    /// A session that has been left stays left and unchanged.
    pub proof fn lemma_left_for_good(self, key: KeyEvent, result: Result<ResponseModel, Seq<char>>)
        requires
            self.phase is Terminating,
        ensures
            self.on_key(key) == self,
            self.on_result(result) == self,
    {
    }
}

/// An interactive session: the editor and its texts, and where the caller
/// stands between keys and answers.
pub struct Session {
    app: App,
    phase: Phase,
}

impl View for Session {
    type V = SessionView;

    closed spec fn view(&self) -> SessionView {
        SessionView { app: self.app@, phase: self.phase@ }
    }
}

impl Session {
    /// The invariant of the session: that of its editor, and the history
    /// and a query under way hold trimmed queries that are not blank.
    pub closed spec fn wf(&self) -> bool {
        &&& self.app.wf()
        &&& self@.wf()
    }

    /// What the invariant says in terms of the view.
    pub proof fn lemma_wf(&self)
        requires
            self.wf(),
        ensures
            self@.wf(),
    {
    }

    /// An idle session with an empty buffer and an empty history.
    pub fn new(json_output: bool) -> (session: Session)
        ensures
            session.wf(),
            session@ == (SessionView { app: AppView::initial(json_output), phase: PhaseModel::Idle }),
    {
        Session { app: App::new(json_output), phase: Phase::Idle }
    }

    /// The editor and the texts of the session.
    pub fn app(&self) -> (app: &App)
        requires
            self.wf(),
        ensures
            app.wf(),
            app@ == self@.app,
    {
        &self.app
    }

    /// Where the session stands.
    pub fn phase(&self) -> (phase: &Phase)
        ensures
            phase@ == self@.phase,
    {
        &self.phase
    }

    /// Applies a key to the session and says what the caller has to do
    /// next. After [`KeyOutcome::Run`] the session waits for
    /// [`Session::on_result`].
    pub fn on_key(&mut self, key: KeyEvent) -> (outcome: KeyOutcome)
        requires
            old(self).wf(),
        ensures
            final(self).wf(),
            final(self)@ == old(self)@.on_key(key),
            outcome@ == old(self)@.key_outcome(key),
    {
        match &self.phase {
            Phase::Idle => {},
            Phase::Running(_) => {
                return KeyOutcome::Continue;
            },
            Phase::Terminating => {
                return KeyOutcome::Exit;
            },
        }
        let outcome = handle_key_event(&mut self.app, key);
        match &outcome {
            KeyOutcome::Continue => {},
            KeyOutcome::Exit => {
                self.phase = Phase::Terminating;
            },
            KeyOutcome::Run(query) => {
                proof {
                    lemma_trimmed_not_blank(old(self).app@.input);
                }
                self.phase = Phase::Running(query.clone());
            },
        }
        outcome
    }

    /// Takes the answer to the query under way: shows it, adds the query to
    /// the history, clears the input, and is idle again. Does nothing when
    /// no query is under way.
    pub fn on_result(&mut self, result: Result<&SqlResponse, &str>)
        requires
            old(self).wf(),
        ensures
            final(self).wf(),
            final(self)@ == old(self)@.on_result(result_model(result)),
    {
        let mut phase = Phase::Idle;
        std::mem::swap(&mut self.phase, &mut phase);
        match phase {
            Phase::Running(query) => {
                finish_query(&mut self.app, query.as_str(), result);
            },
            other => {
                self.phase = other;
            },
        }
    }
}

} // verus!
