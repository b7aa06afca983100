//! The client's state machine: what each user command and each transport
//! event does to the configuration, the snapshot, the token, the loaded
//! answers and the store. The application shell performs the I/O that the
//! commands ask for and hands the results back.

use vstd::prelude::*;
use vstd::string::*;
use crate::clock::{new_request_id, not_after, parse_rfc3339, rfc3339_utc, utc_now, uuid_v4_text};
use crate::error::{AppError, ErrorView, error_text};
use crate::model::{
    ActivateAttemptData, ActivateAttemptInput, AnswerSyncState, Checkpoint, ClientConfig,
    ClientRuntime, ClientSnapshot, ClientState, ConfigureClientInput, DEFAULT_REQUEST_TIMEOUT_MS,
    LocalAnswer, LocalAnswerView, Questionnaire, QuestionnaireReadData, SaveAnswerInput,
    SaveAnswerOutcome, StartAttemptData, SubmitData, SubmitResult, SyncSummary, fresh_snapshot,
};
use crate::protocol::{
    activation_data, activation_data_text, compilation_data, compilation_data_text, start_data,
    start_data_text,
};
use crate::store::{
    Database, StoreView, answers_loaded, cleared, count_status, imported, local_views, queued,
    reconciled, rebound, server_views, cached, retried, import_failure,
    reconcile_failure, server_revision_error, sqlite_max, too_large,
};
use crate::text::{decimal, decimal_text, opt_text, trim_text, trimmed};

verus! {

// ---------------------------------------------------------------------------
// Snapshot transitions
// ---------------------------------------------------------------------------

/// After a restart the connection is gone: an attempt that was connected,
/// starting, running or submitting is offline.
pub open spec fn restarted(s: ClientSnapshot) -> ClientSnapshot {
    ClientSnapshot {
        websocket_connected: false,
        state: match s.state {
            ClientState::Connected | ClientState::Starting | ClientState::Running
            | ClientState::Submitting => ClientState::Offline,
            other => other,
        },
        ..s
    }
}

/// The user closed the connection.
pub open spec fn user_disconnected(s: ClientSnapshot) -> ClientSnapshot {
    ClientSnapshot {
        websocket_connected: false,
        state: match s.state {
            ClientState::Running | ClientState::Offline => ClientState::Offline,
            ClientState::Submitted => ClientState::Submitted,
            _ => ClientState::Disconnected,
        },
        ..s
    }
}

/// The attempt expired: it was not submitted and its expiry, read as RFC
/// 3339, is not later than `now`.
pub open spec fn attempt_expired(s: ClientSnapshot, now: (i64, u32)) -> bool {
    &&& s.state != ClientState::Submitted
    &&& s.expires_at is Some
    &&& rfc3339_utc(s.expires_at->0@) is Some
    &&& not_after(rfc3339_utc(s.expires_at->0@)->0, now)
}

/// The snapshot of an attempt that the server started.
pub open spec fn running(
    s: ClientSnapshot,
    compilation_id: Seq<char>,
    server_revision: u64,
    expires_at: Seq<char>,
) -> bool {
    &&& s.state == ClientState::Running
    &&& s.compilation_id@ == compilation_id
    &&& s.server_revision == server_revision
    &&& opt_text(s.expires_at) == Some(expires_at)
    &&& s.receipt is None
    &&& s.submitted_at is None
    &&& s.last_error is None
}

/// Fails with `Disconnected` unless the WebSocket is connected.
pub fn ensure_connected(snapshot: &ClientSnapshot) -> (r: Result<(), AppError>)
    ensures
        match r {
            Ok(()) => snapshot.websocket_connected,
            Err(e) => !snapshot.websocket_connected && e@ == ErrorView::Disconnected,
        },
{
    if !snapshot.websocket_connected {
        return Err(AppError::Disconnected);
    }
    Ok(())
}

/// Fails unless the attempt is running or offline.
pub fn ensure_attempt_active(snapshot: &ClientSnapshot) -> (r: Result<(), AppError>)
    ensures
        match r {
            Ok(()) => snapshot.state == ClientState::Running || snapshot.state == ClientState::Offline,
            Err(e) => snapshot.state != ClientState::Running && snapshot.state != ClientState::Offline
                && e@ == ErrorView::InvalidState("la compilazione non è attiva"@),
        },
{
    if !(snapshot.state == ClientState::Running || snapshot.state == ClientState::Offline) {
        return Err(AppError::InvalidState(String::from_str("la compilazione non è attiva")));
    }
    Ok(())
}

/// Whether the attempt expired at `now`.
pub fn expired_at(snapshot: &ClientSnapshot, now: (i64, u32)) -> (r: bool)
    ensures
        r == attempt_expired(*snapshot, now),
{
    if snapshot.state == ClientState::Submitted {
        return false;
    }
    match &snapshot.expires_at {
        Some(text) => match parse_rfc3339(text.as_str()) {
            Some(expiry) => expiry.0 < now.0 || (expiry.0 == now.0 && expiry.1 <= now.1),
            None => false,
        },
        None => false,
    }
}

/// Whether the attempt has expired now, by the system clock. A submitted
/// attempt never expires, nor one without a readable expiry.
pub fn attempt_is_expired(snapshot: &ClientSnapshot) -> (r: bool)
    ensures
        r ==> snapshot.state != ClientState::Submitted && snapshot.expires_at is Some && rfc3339_utc(
            snapshot.expires_at->0@,
        ) is Some,
        exists|now: (i64, u32)| r == attempt_expired(*snapshot, now),
{
    let now = utc_now();
    expired_at(snapshot, now)
}

// ---------------------------------------------------------------------------
// The client
// ---------------------------------------------------------------------------

/// The state of the client: configuration, snapshot, access token (kept in
/// memory only), the answers of the current compilation, and the store.
pub struct ClientCore {
    pub config: ClientConfig,
    pub snapshot: ClientSnapshot,
    pub access_token: Option<String>,
    pub answers: Vec<LocalAnswer>,
    pub db: Database,
}

/// Nothing changed.
pub open spec fn unchanged(a: ClientCore, b: ClientCore) -> bool {
    &&& a.config == b.config
    &&& a.snapshot == b.snapshot
    &&& a.access_token == b.access_token
    &&& a.answers@ == b.answers@
    &&& a.db@ == b.db@
}

/// The loaded answers are those of the snapshot's compilation in the store.
pub open spec fn answers_current(c: ClientCore) -> bool {
    answers_loaded(c.db@.answers, c.snapshot.compilation_id@, local_views(c.answers@))
}

/// The stored client state is the client's own.
pub open spec fn persisted(c: ClientCore) -> bool {
    c.db@.state == Some((c.config, c.snapshot))
}

/// The store of a new, empty SQLite file holding only the given state.
pub open spec fn recreated(v: StoreView, config: ClientConfig, snapshot: ClientSnapshot) -> StoreView {
    StoreView {
        path: v.path,
        state: Some((config, snapshot)),
        answers: Map::empty(),
        outbox: Seq::empty(),
        last_sequence: 0,
        questionnaires: Map::empty(),
    }
}

/// The store with the given client state.
pub open spec fn with_state(v: StoreView, config: ClientConfig, snapshot: ClientSnapshot) -> StoreView {
    StoreView { state: Some((config, snapshot)), ..v }
}

/// The snapshot that opening the client ends with: an attempt that expired
/// meanwhile starts over from the configuration; either way the connection
/// is gone.
pub open spec fn reopened_snapshot(config: ClientConfig, stored: ClientSnapshot, now: (i64, u32)) -> ClientSnapshot {
    if attempt_expired(stored, now) {
        restarted(fresh_snapshot(config))
    } else {
        restarted(stored)
    }
}

/// The store that opening the client ends with, from the store `v` holding
/// the state `(config, stored)`.
pub open spec fn reopened_store(v: StoreView, config: ClientConfig, stored: ClientSnapshot, now: (i64, u32)) -> StoreView {
    if attempt_expired(stored, now) {
        recreated(v, config, reopened_snapshot(config, stored, now))
    } else {
        with_state(v, config, reopened_snapshot(config, stored, now))
    }
}

/// What opening the client at `now` gives, from the store `db`, the default
/// configuration, the state file of an earlier version (if one was found),
/// and the token given by the environment. The earlier state file is
/// imported only into a store that holds no state yet; with neither, the
/// default configuration is stored.
pub open spec fn opened(
    db: StoreView,
    defaults: ClientConfig,
    legacy: Option<Checkpoint>,
    env_token: Option<String>,
    now: (i64, u32),
    r: Result<(ClientCore, bool), AppError>,
) -> bool {
    match r {
        Ok((core, imported_legacy)) => {
            &&& core.db.wf()
            &&& persisted(core)
            &&& answers_current(core)
            &&& core.access_token == env_token
            &&& imported_legacy == (db.state is None && legacy is Some)
            &&& match db.state {
                Some((c, s)) => core.config == c && core.snapshot == reopened_snapshot(c, s, now)
                    && core.db@ == reopened_store(db, c, s, now),
                None => match legacy {
                    None => core.config == defaults && core.snapshot == restarted(fresh_snapshot(defaults))
                        && core.db@ == with_state(db, core.config, core.snapshot),
                    Some(cp) => core.config == cp.config && core.snapshot == reopened_snapshot(
                        cp.config,
                        cp.snapshot,
                        now,
                    ) && exists|mid: StoreView|
                        imported(db, cp.config, cp.snapshot, local_views(cp.answers@), mid)
                            && core.db@ == reopened_store(mid, cp.config, cp.snapshot, now),
                },
            }
        },
        Err(e) => {
            &&& db.state is None
            &&& legacy matches Some(cp) && import_failure(db, local_views(cp.answers@), e@)
        },
    }
}

/// The request timeout of a configuration: 8000 ms unless given, kept
/// between one second and one minute.
pub open spec fn clamped_timeout(t: Option<u64>) -> u64 {
    let v = match t {
        Some(v) => v,
        None => DEFAULT_REQUEST_TIMEOUT_MS,
    };
    if v < 1000 {
        1000
    } else if v > 60000 {
        60000
    } else {
        v
    }
}

/// The endpoint and the identifiers are all given (white space aside).
pub open spec fn configuration_complete(input: ConfigureClientInput) -> bool {
    &&& trimmed(input.server_url@).len() > 0
    &&& trimmed(input.installation_id@).len() > 0
    &&& trimmed(input.session_id@).len() > 0
    &&& trimmed(input.compilation_id@).len() > 0
}

/// The configuration made from the user's input: the values without leading
/// and trailing white space, the timeout clamped.
pub open spec fn configuration_of(input: ConfigureClientInput, config: ClientConfig) -> bool {
    &&& config.server_url@ == trimmed(input.server_url@)
    &&& config.installation_id@ == trimmed(input.installation_id@)
    &&& config.session_id@ == trimmed(input.session_id@)
    &&& config.compilation_id@ == trimmed(input.compilation_id@)
    &&& config.request_timeout_ms == clamped_timeout(input.request_timeout_ms)
}

/// The token the user entered, unless it is blank.
pub open spec fn entered_token(token: Seq<char>) -> Option<Seq<char>> {
    if trimmed(token).len() == 0 {
        None
    } else {
        Some(trimmed(token))
    }
}

/// A value given by the environment, unless it is blank.
pub open spec fn nonblank_setting(value: Option<String>) -> Option<String> {
    match value {
        Some(v) => if trimmed(v@).len() > 0 {
            Some(v)
        } else {
            None
        },
        None => None,
    }
}

/// A value given by the environment (the token, the path of the SQLite file
/// or of the token file), unless it is blank; a value that is not blank is
/// kept as it is.
pub fn nonblank(value: Option<String>) -> (r: Option<String>)
    ensures
        r == nonblank_setting(value),
{
    match value {
        Some(v) => {
            let t = trim_text(v.as_str());
            if !t.as_str().is_empty() {
                Some(v)
            } else {
                None
            }
        },
        None => None,
    }
}

/// The token read from the token file: its text without leading and
/// trailing white space, unless nothing is left.
pub fn token_from_file(text: &str) -> (r: Option<String>)
    ensures
        opt_text(r) == entered_token(text@),
{
    let t = trim_text(text);
    if !t.as_str().is_empty() {
        Some(t)
    } else {
        None
    }
}

fn copy_answers(answers: &Vec<LocalAnswer>) -> (r: Vec<LocalAnswer>)
    ensures
        r@ == answers@,
{
    let mut r: Vec<LocalAnswer> = Vec::new();
    let n: usize = answers.len();
    for i in 0..n
        invariant
            n == answers@.len(),
            r@ == answers@.take(i as int),
    {
        r.push(answers[i].clone());
        proof {
            assert(answers@.take(i + 1) =~= answers@.take(i as int).push(answers@[i as int]));
        }
    }
    proof {
        assert(answers@.take(n as int) =~= answers@);
    }
    r
}

/// What the server answered when it started or resumed an attempt.
#[derive(Debug)]
pub struct AttemptStarted {
    pub compilation_id: String,
    pub server_revision: u64,
    pub expires_at: String,
}

/// The snapshot once the attempt runs: the server's compilation, revision
/// and expiry, no receipt, no error.
pub open spec fn running_snapshot(s: ClientSnapshot, started: AttemptStarted) -> ClientSnapshot {
    ClientSnapshot {
        state: ClientState::Running,
        compilation_id: started.compilation_id,
        server_revision: started.server_revision,
        expires_at: Some(started.expires_at),
        receipt: None,
        submitted_at: None,
        last_error: None,
        ..s
    }
}

/// `after` is `before` in state `state`, showing the error `e`.
pub open spec fn shows_error(before: ClientSnapshot, after: ClientSnapshot, state: ClientState, e: ErrorView) -> bool {
    &&& after == ClientSnapshot { state, last_error: after.last_error, ..before }
    &&& opt_text(after.last_error) == Some(error_text(e))
}

/// The first loaded answer to the question, if any.
pub open spec fn first_answer(answers: Seq<LocalAnswerView>, q: Seq<char>) -> Option<LocalAnswerView>
    decreases answers.len(),
{
    if answers.len() == 0 {
        None
    } else if answers[0].question_id == q {
        Some(answers[0])
    } else {
        first_answer(answers.drop_first(), q)
    }
}

/// The local answer that saving the input writes: pending, keeping the
/// server revision the question had.
pub open spec fn saved_answer(input: SaveAnswerInput, previous: Option<LocalAnswerView>) -> LocalAnswerView {
    LocalAnswerView {
        question_id: input.question_id@,
        client_revision: input.client_revision,
        server_revision: match previous {
            Some(a) => a.server_revision,
            None => None,
        },
        answer: input.answer@,
        sync_state: AnswerSyncState::Pending,
        last_error: None,
    }
}

/// The snapshot after the server confirmed the submit.
pub open spec fn submitted_snapshot(s: ClientSnapshot, d: SubmitData) -> ClientSnapshot {
    ClientSnapshot {
        state: ClientState::Submitted,
        websocket_connected: false,
        receipt: Some(d.receipt),
        submitted_at: Some(d.submitted_at),
        last_error: None,
        ..s
    }
}

impl ClientCore {
    /// Stores the configuration and the snapshot.
    pub fn persist(&mut self)
        requires
            old(self).db.wf(),
        ensures
            final(self).db.wf(),
            final(self).db@ == (StoreView { state: Some((old(self).config, old(self).snapshot)), ..old(self).db@ }),
            final(self).config == old(self).config,
            final(self).snapshot == old(self).snapshot,
            final(self).access_token == old(self).access_token,
            final(self).answers@ == old(self).answers@,
    {
        self.db.save_state(&self.config, &self.snapshot);
    }

    /// Loads the answers of the snapshot's compilation from the store.
    pub fn reload_answers(&mut self)
        requires
            old(self).db.wf(),
        ensures
            final(self).db.wf(),
            final(self).db@ == old(self).db@,
            final(self).config == old(self).config,
            final(self).snapshot == old(self).snapshot,
            final(self).access_token == old(self).access_token,
            answers_current(*final(self)),
    {
        self.answers = self.db.load_answers(self.snapshot.compilation_id.as_str());
    }

    /// Opens the client at the instant `now`; see `opened`.
    pub fn open_at(
        mut db: Database,
        defaults: ClientConfig,
        legacy: Option<Checkpoint>,
        env_token: Option<String>,
        now: (i64, u32),
    ) -> (r: Result<(ClientCore, bool), AppError>)
        requires
            db.wf(),
        ensures
            opened(db@, defaults, legacy, env_token, now, r),
    {
        let ghost db0 = db@;
        let ghost legacy0 = legacy;
        let mut imported_legacy = false;
        let ghost mut mid = db@;
        if db.load_state().is_none() {
            match legacy {
                Some(checkpoint) => {
                    match db.import_checkpoint(&checkpoint) {
                        Err(e) => {
                            return Err(e);
                        },
                        Ok(()) => {},
                    }
                    proof {
                        mid = db@;
                    }
                    imported_legacy = true;
                },
                None => {
                    let snapshot = ClientSnapshot::from_config(&defaults);
                    db.save_state(&defaults, &snapshot);
                },
            }
        }
        let (config, mut snapshot) = match db.load_state() {
            Some(state) => state,
            None => {
                return Err(AppError::Storage(String::from_str("stato SQLite assente dopo l'inizializzazione")));
            },
        };
        let ghost stored = snapshot;
        let ghost v1 = db@;
        if expired_at(&snapshot, now) {
            snapshot = ClientSnapshot::from_config(&config);
            db.recreate_with_state(&config, &snapshot);
        }
        snapshot.websocket_connected = false;
        if snapshot.state == ClientState::Connected || snapshot.state == ClientState::Starting
            || snapshot.state == ClientState::Running || snapshot.state == ClientState::Submitting {
            snapshot.state = ClientState::Offline;
        }
        db.save_state(&config, &snapshot);
        let answers = db.load_answers(snapshot.compilation_id.as_str());
        let core = ClientCore { config, snapshot, access_token: env_token, answers, db };
        proof {
            assert(core.snapshot == reopened_snapshot(config, stored, now));
            if attempt_expired(stored, now) {
                assert(core.db@ == recreated(v1, config, core.snapshot));
            } else {
                assert(core.db@ == with_state(v1, config, core.snapshot));
            }
            assert(core.db@ == reopened_store(v1, config, stored, now));
            match db0.state {
                Some((c, s0)) => {
                    assert(v1 == db0);
                },
                None => match legacy0 {
                    None => {
                        assert(stored == fresh_snapshot(defaults));
                        assert(!attempt_expired(stored, now));
                        assert(core.db@ =~= with_state(db0, core.config, core.snapshot));
                    },
                    Some(cp) => {
                        assert(v1 == mid);
                        assert(imported(db0, cp.config, cp.snapshot, local_views(cp.answers@), mid));
                    },
                },
            }
        }
        Ok((core, imported_legacy))
    }

    /// Opens the client by the system clock: the outcome is that of
    /// `open_at` at some instant.
    pub fn open(db: Database, defaults: ClientConfig, legacy: Option<Checkpoint>, env_token: Option<String>) -> (r:
        Result<(ClientCore, bool), AppError>)
        requires
            db.wf(),
        ensures
            exists|now: (i64, u32)| opened(db@, defaults, legacy, env_token, now, r),
    {
        let now = utc_now();
        Self::open_at(db, defaults, legacy, env_token, now)
    }

    /// Everything the user interface is shown (`runtime`).
    pub fn runtime(&self, fullscreen: bool) -> (r: ClientRuntime)
        requires
            self.db.wf(),
        ensures
            r.snapshot == self.snapshot,
            r.config == self.config,
            r.answers@ == self.answers@,
            r.token_loaded == self.access_token is Some,
            r.fullscreen == fullscreen,
            r.sqlite_path@ == self.db@.path,
            r.pending_outbox == count_status(self.db@.outbox, false),
            r.outbox_errors == count_status(self.db@.outbox, true),
    {
        let (pending_outbox, outbox_errors) = self.db.outbox_counts();
        ClientRuntime {
            snapshot: self.snapshot.clone(),
            config: self.config.clone(),
            answers: copy_answers(&self.answers),
            token_loaded: self.access_token.is_some(),
            fullscreen,
            sqlite_path: String::from_str(self.db.path()),
            pending_outbox,
            outbox_errors,
        }
    }

    /// `initialize_client`: records how many monitors are available and
    /// stores the state.
    pub fn record_monitor_count(&mut self, monitor_count: usize)
        requires
            old(self).db.wf(),
        ensures
            final(self).db.wf(),
            final(self).snapshot == (ClientSnapshot { monitor_count: Some(monitor_count), ..old(self).snapshot }),
            final(self).config == old(self).config,
            final(self).access_token == old(self).access_token,
            final(self).answers@ == old(self).answers@,
            final(self).db@ == with_state(old(self).db@, final(self).config, final(self).snapshot),
    {
        self.snapshot.monitor_count = Some(monitor_count);
        self.persist();
    }

    /// `configure_client`: replaces the configuration while disconnected.
    /// The data of the previous attempt is deleted, the snapshot starts over
    /// from the new configuration, and a blank token clears the token.
    pub fn configure_client(&mut self, input: &ConfigureClientInput, writer_connected: bool) -> (r: Result<
        (),
        AppError,
    >)
        requires
            old(self).db.wf(),
        ensures
            final(self).db.wf(),
            match r {
                Err(e) => unchanged(*old(self), *final(self)) && if writer_connected {
                    e@ == ErrorView::InvalidState(
                        "disconnettere il WebSocket prima di modificare la configurazione"@,
                    )
                } else {
                    !configuration_complete(*input) && e@ == ErrorView::InvalidState(
                        "URL e identificativi sono obbligatori"@,
                    )
                },
                Ok(()) => {
                    &&& !writer_connected
                    &&& configuration_complete(*input)
                    &&& configuration_of(*input, final(self).config)
                    &&& final(self).snapshot == fresh_snapshot(final(self).config)
                    &&& opt_text(final(self).access_token) == entered_token(input.token@)
                    &&& final(self).answers@.len() == 0
                    &&& final(self).db@ == with_state(cleared(old(self).db@), final(self).config, final(self).snapshot)
                },
            },
    {
        if writer_connected {
            return Err(AppError::InvalidState(
                String::from_str("disconnettere il WebSocket prima di modificare la configurazione"),
            ));
        }
        let server_url = trim_text(input.server_url.as_str());
        let installation_id = trim_text(input.installation_id.as_str());
        let session_id = trim_text(input.session_id.as_str());
        let compilation_id = trim_text(input.compilation_id.as_str());
        if server_url.as_str().is_empty() || installation_id.as_str().is_empty() || session_id.as_str().is_empty()
            || compilation_id.as_str().is_empty() {
            return Err(AppError::InvalidState(String::from_str("URL e identificativi sono obbligatori")));
        }
        let requested: u64 = match input.request_timeout_ms {
            Some(v) => v,
            None => DEFAULT_REQUEST_TIMEOUT_MS,
        };
        let request_timeout_ms: u64 = if requested < 1000 {
            1000
        } else if requested > 60000 {
            60000
        } else {
            requested
        };
        let config = ClientConfig { server_url, installation_id, session_id, compilation_id, request_timeout_ms };
        self.db.clear_attempt_data();
        self.snapshot = ClientSnapshot::from_config(&config);
        self.config = config;
        self.answers = Vec::new();
        let token = trim_text(input.token.as_str());
        self.access_token = if token.as_str().is_empty() {
            None
        } else {
            Some(token)
        };
        self.persist();
        Ok(())
    }

    /// `disconnect_server`: the user closed the connection; the state is
    /// stored.
    pub fn disconnect_server(&mut self)
        requires
            old(self).db.wf(),
        ensures
            final(self).db.wf(),
            final(self).snapshot == user_disconnected(old(self).snapshot),
            final(self).config == old(self).config,
            final(self).access_token == old(self).access_token,
            final(self).answers@ == old(self).answers@,
            final(self).db@ == with_state(old(self).db@, final(self).config, final(self).snapshot),
    {
        self.snapshot.websocket_connected = false;
        self.snapshot.state = match self.snapshot.state {
            ClientState::Running | ClientState::Offline => ClientState::Offline,
            ClientState::Submitted => ClientState::Submitted,
            _ => ClientState::Disconnected,
        };
        self.persist();
    }

    /// `activate_attempt`, before the request: the connection must be up and
    /// the credentials given; the attempt is starting. Returns the current
    /// compilation and the `auth.activate` data.
    pub fn begin_activation(&mut self, input: &ActivateAttemptInput) -> (r: Result<(String, String), AppError>)
        requires
            old(self).db.wf(),
        ensures
            final(self).db.wf(),
            match r {
                Err(e) => unchanged(*old(self), *final(self)) && if !old(self).snapshot.websocket_connected {
                    e@ == ErrorView::Disconnected
                } else {
                    (trimmed(input.username@).len() == 0 || input.password@.len() == 0) && e@
                        == ErrorView::InvalidState("username e password sono obbligatori"@)
                },
                Ok((previous, data)) => {
                    &&& old(self).snapshot.websocket_connected
                    &&& trimmed(input.username@).len() > 0 && input.password@.len() > 0
                    &&& previous@ == old(self).snapshot.compilation_id@
                    &&& data@ == activation_data_text(
                        trimmed(input.username@),
                        input.password@,
                        old(self).config.session_id@,
                        old(self).config.installation_id@,
                        old(self).config.compilation_id@,
                    )
                    &&& final(self).snapshot == (ClientSnapshot { state: ClientState::Starting, ..old(self).snapshot })
                    &&& final(self).config == old(self).config
                    &&& final(self).access_token == old(self).access_token
                    &&& final(self).answers@ == old(self).answers@
                    &&& final(self).db@ == old(self).db@
                },
            },
    {
        ensure_connected(&self.snapshot)?;
        let username = trim_text(input.username.as_str());
        if username.as_str().is_empty() || input.password.as_str().is_empty() {
            return Err(AppError::InvalidState(String::from_str("username e password sono obbligatori")));
        }
        let previous = self.snapshot.compilation_id.clone();
        self.snapshot.state = ClientState::Starting;
        let data = activation_data(
            username.as_str(),
            input.password.as_str(),
            self.config.session_id.as_str(),
            self.config.installation_id.as_str(),
            self.config.compilation_id.as_str(),
        );
        Ok((previous, data))
    }

    /// `activate_attempt`, with the server's answer: a failure puts the
    /// client back to connected; an answer that is not a running attempt with
    /// a bearer token is refused; otherwise the data of the previous
    /// compilation passes to the server's one and the token is kept.
    pub fn finish_activation(&mut self, previous: &str, outcome: Result<ActivateAttemptData, AppError>) -> (r:
        Result<AttemptStarted, AppError>)
        requires
            old(self).db.wf(),
        ensures
            final(self).db.wf(),
            final(self).config == old(self).config,
            final(self).answers@ == old(self).answers@,
            match outcome {
                Err(e0) => r == Err::<AttemptStarted, AppError>(e0) && shows_error(
                    old(self).snapshot,
                    final(self).snapshot,
                    ClientState::Connected,
                    e0@,
                ) && final(self).access_token == old(self).access_token && final(self).db@ == old(self).db@,
                Ok(d) => if d.state@ != "RUNNING"@ || d.token_type@ != "Bearer"@ {
                    r matches Err(e) && e@ == ErrorView::Protocol("risposta auth.activate non valida"@)
                        && final(self).snapshot == (ClientSnapshot { state: ClientState::Connected, ..old(self).snapshot })
                        && final(self).access_token == old(self).access_token && final(self).db@ == old(self).db@
                } else {
                    r matches Ok(started) && started == (AttemptStarted {
                        compilation_id: d.compilazione_id,
                        server_revision: d.server_revision,
                        expires_at: d.expires_at,
                    }) && final(self).access_token == Some(d.access_token) && final(self).snapshot
                        == old(self).snapshot && final(self).db@ == rebound(
                        old(self).db@,
                        previous@,
                        d.compilazione_id@,
                    )
                },
            },
    {
        match outcome {
            Err(error) => {
                self.snapshot.state = ClientState::Connected;
                self.snapshot.last_error = Some(error.message());
                Err(error)
            },
            Ok(data) => {
                if !(data.state == String::from_str("RUNNING")) || !(data.token_type == String::from_str("Bearer")) {
                    self.snapshot.state = ClientState::Connected;
                    return Err(AppError::Protocol(String::from_str("risposta auth.activate non valida")));
                }
                self.db.rebind_compilation(previous, data.compilazione_id.as_str());
                self.access_token = Some(data.access_token);
                Ok(AttemptStarted {
                    compilation_id: data.compilazione_id,
                    server_revision: data.server_revision,
                    expires_at: data.expires_at,
                })
            },
        }
    }

    /// `compilazione.start`, before the request: the connection must be up;
    /// the attempt is starting. Returns the current compilation and the
    /// request data.
    pub fn begin_start(&mut self) -> (r: Result<(String, String), AppError>)
        requires
            old(self).db.wf(),
        ensures
            final(self).db.wf(),
            match r {
                Err(e) => unchanged(*old(self), *final(self)) && !old(self).snapshot.websocket_connected
                    && e@ == ErrorView::Disconnected,
                Ok((previous, data)) => {
                    &&& old(self).snapshot.websocket_connected
                    &&& previous@ == old(self).snapshot.compilation_id@
                    &&& data@ == start_data_text(
                        old(self).config.session_id@,
                        old(self).config.installation_id@,
                        old(self).config.compilation_id@,
                    )
                    &&& final(self).snapshot == (ClientSnapshot { state: ClientState::Starting, ..old(self).snapshot })
                    &&& final(self).config == old(self).config
                    &&& final(self).access_token == old(self).access_token
                    &&& final(self).answers@ == old(self).answers@
                    &&& final(self).db@ == old(self).db@
                },
            },
    {
        ensure_connected(&self.snapshot)?;
        let previous = self.snapshot.compilation_id.clone();
        self.snapshot.state = ClientState::Starting;
        let data = start_data(
            self.config.session_id.as_str(),
            self.config.installation_id.as_str(),
            self.config.compilation_id.as_str(),
        );
        Ok((previous, data))
    }

    /// `compilazione.start`, with the server's answer: a failure puts the
    /// client back to connected and is stored; an attempt that is not running
    /// is refused; otherwise the data of the previous compilation passes to
    /// the server's one.
    pub fn finish_start(&mut self, previous: &str, outcome: Result<StartAttemptData, AppError>) -> (r: Result<
        AttemptStarted,
        AppError,
    >)
        requires
            old(self).db.wf(),
        ensures
            final(self).db.wf(),
            final(self).config == old(self).config,
            final(self).access_token == old(self).access_token,
            final(self).answers@ == old(self).answers@,
            match outcome {
                Err(e0) => r == Err::<AttemptStarted, AppError>(e0) && shows_error(
                    old(self).snapshot,
                    final(self).snapshot,
                    ClientState::Connected,
                    e0@,
                ) && final(self).db@ == with_state(old(self).db@, final(self).config, final(self).snapshot),
                Ok(d) => if d.state@ != "RUNNING"@ {
                    r matches Err(e) && e@ == ErrorView::Protocol("stato inatteso dopo compilazione.start: "@ + d.state@)
                        && final(self).snapshot == old(self).snapshot && final(self).db@ == old(self).db@
                } else {
                    r matches Ok(started) && started == (AttemptStarted {
                        compilation_id: d.compilazione_id,
                        server_revision: d.server_revision,
                        expires_at: d.expires_at,
                    }) && final(self).snapshot == old(self).snapshot && final(self).db@ == rebound(
                        old(self).db@,
                        previous@,
                        d.compilazione_id@,
                    )
                },
            },
    {
        match outcome {
            Err(error) => {
                self.snapshot.state = ClientState::Connected;
                self.snapshot.last_error = Some(error.message());
                self.persist();
                Err(error)
            },
            Ok(data) => {
                if !(data.state == String::from_str("RUNNING")) {
                    return Err(AppError::Protocol(
                        String::from_str("stato inatteso dopo compilazione.start: ").concat(data.state.as_str()),
                    ));
                }
                self.db.rebind_compilation(previous, data.compilazione_id.as_str());
                Ok(AttemptStarted {
                    compilation_id: data.compilazione_id,
                    server_revision: data.server_revision,
                    expires_at: data.expires_at,
                })
            },
        }
    }

    /// The attempt runs: the snapshot takes the server's compilation,
    /// revision and expiry; the answers of that compilation are loaded; the
    /// state is stored.
    pub fn enter_running(&mut self, started: AttemptStarted)
        requires
            old(self).db.wf(),
        ensures
            final(self).db.wf(),
            final(self).snapshot == running_snapshot(old(self).snapshot, started),
            final(self).config == old(self).config,
            final(self).access_token == old(self).access_token,
            final(self).db@ == with_state(old(self).db@, final(self).config, final(self).snapshot),
            answers_current(*final(self)),
    {
        self.snapshot.state = ClientState::Running;
        self.snapshot.compilation_id = started.compilation_id;
        self.snapshot.server_revision = started.server_revision;
        self.snapshot.expires_at = Some(started.expires_at);
        self.snapshot.receipt = None;
        self.snapshot.submitted_at = None;
        self.snapshot.last_error = None;
        self.reload_answers();
        self.persist();
    }

    /// `load_questionnaire`, before the request: the attempt must be active.
    /// When connected with a token, returns the `compilazione.read` data;
    /// otherwise `None`, and the cached questionnaire is used.
    pub fn begin_load_questionnaire(&self) -> (r: Result<Option<String>, AppError>)
        ensures
            match r {
                Err(e) => self.snapshot.state != ClientState::Running && self.snapshot.state != ClientState::Offline
                    && e@ == ErrorView::InvalidState("la compilazione non è attiva"@),
                Ok(request) => {
                    &&& (self.snapshot.state == ClientState::Running || self.snapshot.state == ClientState::Offline)
                    &&& match request {
                        Some(data) => self.snapshot.websocket_connected && self.access_token is Some && data@
                            == compilation_data_text(self.snapshot.compilation_id@),
                        None => !(self.snapshot.websocket_connected && self.access_token is Some),
                    }
                },
            },
    {
        ensure_attempt_active(&self.snapshot)?;
        if self.snapshot.websocket_connected && self.access_token.is_some() {
            Ok(Some(compilation_data(self.snapshot.compilation_id.as_str())))
        } else {
            Ok(None)
        }
    }

    /// The cached questionnaire of the current compilation.
    pub fn cached_questionnaire(&self) -> (r: Result<Questionnaire, AppError>)
        requires
            self.db.wf(),
        ensures
            match r {
                Ok(q) => self.db@.questionnaires.dom().contains(self.snapshot.compilation_id@) && q@
                    == self.db@.questionnaires[self.snapshot.compilation_id@].questionnaire,
                Err(e) => !self.db@.questionnaires.dom().contains(self.snapshot.compilation_id@) && e@
                    == ErrorView::InvalidState("questionario non disponibile nella cache SQLite"@),
            },
    {
        match self.db.load_cached_questionnaire(self.snapshot.compilation_id.as_str()) {
            Some(q) => Ok(q),
            None => Err(AppError::InvalidState(String::from_str("questionario non disponibile nella cache SQLite"))),
        }
    }

    /// `load_questionnaire`, with the server's answer. On success the
    /// server's answers are reconciled with the local ones, the questionnaire
    /// is cached, the answers reloaded and the snapshot takes the server's
    /// revision and expiry. On failure the cached questionnaire is used when
    /// there is one, with the error shown; otherwise the error is returned.
    pub fn finish_read(&mut self, outcome: Result<QuestionnaireReadData, AppError>) -> (r: Result<
        Questionnaire,
        AppError,
    >)
        requires
            old(self).db.wf(),
        ensures
            final(self).db.wf(),
            final(self).config == old(self).config,
            final(self).access_token == old(self).access_token,
            match outcome {
                Ok(resp) => match r {
                    Ok(q) => {
                        let c = old(self).snapshot.compilation_id@;
                        &&& q@ == resp.questionario@
                        &&& final(self).snapshot == (ClientSnapshot {
                            server_revision: resp.server_revision,
                            expires_at: Some(resp.expires_at),
                            last_error: None,
                            ..old(self).snapshot
                        })
                        &&& answers_current(*final(self))
                        &&& exists|mid: StoreView|
                            reconciled(old(self).db@, c, server_views(resp.answers@), mid) && cached(
                                mid,
                                c,
                                resp.questionario@,
                            ) == Ok::<StoreView, ErrorView>(
                                StoreView { state: mid.state, ..final(self).db@ },
                            ) && final(self).db@.state == Some((final(self).config, final(self).snapshot))
                    },
                    Err(e) => {
                        let c = old(self).snapshot.compilation_id@;
                        let sv = server_views(resp.answers@);
                        &&& final(self).snapshot == old(self).snapshot
                        &&& final(self).answers@ == old(self).answers@
                        &&& ((final(self).db@ == old(self).db@ && reconcile_failure(old(self).db@, c, sv, e@)) || (server_revision_error(sv) is None && resp.questionario@.revision > sqlite_max()
                            && e@ == too_large(resp.questionario@.revision) && exists|mid: StoreView|
                            reconciled(old(self).db@, c, sv, mid) && final(self).db@ == mid))
                    },
                },
                Err(e0) => if old(self).db@.questionnaires.dom().contains(old(self).snapshot.compilation_id@) {
                    r matches Ok(q) && q@ == old(self).db@.questionnaires[old(self).snapshot.compilation_id@].questionnaire
                        && final(self).snapshot == ClientSnapshot { last_error: final(self).snapshot.last_error, ..old(self).snapshot }
                        && opt_text(final(self).snapshot.last_error) == Some(error_text(e0@))
                        && final(self).answers@ == old(self).answers@
                        && final(self).db@ == with_state(old(self).db@, final(self).config, final(self).snapshot)
                } else {
                    r == Err::<Questionnaire, AppError>(e0) && unchanged(*old(self), *final(self))
                },
            },
    {
        match outcome {
            Ok(response) => {
                let c = self.snapshot.compilation_id.clone();
                self.db.reconcile_server_answers(c.as_str(), response.answers.as_slice())?;
                let ghost mid = self.db@;
                self.db.cache_questionnaire(c.as_str(), &response.questionario)?;
                self.reload_answers();
                self.snapshot.server_revision = response.server_revision;
                self.snapshot.expires_at = Some(response.expires_at);
                self.snapshot.last_error = None;
                self.persist();
                proof {
                    assert(StoreView { state: mid.state, ..self.db@ } == cached(mid, c@, response.questionario@)->Ok_0);
                }
                Ok(response.questionario)
            },
            Err(error) => {
                match self.db.load_cached_questionnaire(self.snapshot.compilation_id.as_str()) {
                    Some(cached_questionnaire) => {
                        self.snapshot.last_error = Some(error.message());
                        self.persist();
                        Ok(cached_questionnaire)
                    },
                    None => Err(error),
                }
            },
        }
    }

    /// The first loaded answer to the question.
    fn find_loaded(&self, question_id: &String) -> (r: Option<usize>)
        ensures
            match r {
                Some(i) => i < self.answers@.len() && first_answer(local_views(self.answers@), question_id@)
                    == Some(self.answers@[i as int]@),
                None => first_answer(local_views(self.answers@), question_id@) is None,
            },
    {
        let ghost views = local_views(self.answers@);
        let n: usize = self.answers.len();
        let mut i: usize = 0;
        proof {
            assert(views.skip(0) =~= views);
        }
        while i < n
            invariant
                n == self.answers@.len(),
                i <= n,
                views == local_views(self.answers@),
                first_answer(views, question_id@) == first_answer(views.skip(i as int), question_id@),
            decreases n - i,
        {
            proof {
                assert(views.skip(i as int)[0] == self.answers@[i as int]@);
                assert(views.skip(i as int).drop_first() =~= views.skip(i + 1));
            }
            if self.answers[i].question_id == *question_id {
                return Some(i);
            }
            i = i + 1;
        }
        proof {
            assert(views.skip(n as int) =~= Seq::<LocalAnswerView>::empty());
        }
        None
    }

    /// `save_answer`: in one transaction the answer is stored as pending,
    /// keeping the server revision the question had, and queued in the
    /// outbox under a fresh request identifier; the answers are reloaded.
    /// Returns whether the outbox should be sent now (connected, with a
    /// token).
    pub fn save_answer(&mut self, input: &SaveAnswerInput) -> (r: Result<bool, AppError>)
        requires
            old(self).db.wf(),
        ensures
            final(self).db.wf(),
            final(self).config == old(self).config,
            final(self).snapshot == old(self).snapshot,
            final(self).access_token == old(self).access_token,
            match r {
                Err(e) => final(self).db@ == old(self).db@ && final(self).answers@ == old(self).answers@ && (
                    (old(self).snapshot.state != ClientState::Running && old(self).snapshot.state != ClientState::Offline
                        && e@ == ErrorView::InvalidState("la compilazione non è attiva"@))
                    || exists|id: Seq<char>| uuid_v4_text(id) && queued(
                        old(self).db@,
                        old(self).snapshot.compilation_id@,
                        saved_answer(*input, first_answer(local_views(old(self).answers@), input.question_id@)),
                        id,
                    ) == Err::<StoreView, ErrorView>(e@)),
                Ok(send_now) => {
                    &&& (old(self).snapshot.state == ClientState::Running || old(self).snapshot.state == ClientState::Offline)
                    &&& send_now == (old(self).snapshot.websocket_connected && old(self).access_token is Some)
                    &&& answers_current(*final(self))
                    &&& exists|id: Seq<char>|
                        uuid_v4_text(id) && queued(
                            old(self).db@,
                            old(self).snapshot.compilation_id@,
                            saved_answer(*input, first_answer(local_views(old(self).answers@), input.question_id@)),
                            id,
                        ) == Ok::<StoreView, ErrorView>(final(self).db@)
                },
            },
    {
        ensure_attempt_active(&self.snapshot)?;
        let request_id = new_request_id();
        let previous_server_revision = match self.find_loaded(&input.question_id) {
            Some(i) => self.answers[i].server_revision,
            None => None,
        };
        let local = LocalAnswer {
            question_id: input.question_id.clone(),
            client_revision: input.client_revision,
            server_revision: previous_server_revision,
            answer: input.answer.clone(),
            sync_state: AnswerSyncState::Pending,
            last_error: None,
        };
        proof {
            assert(local@ == saved_answer(*input, first_answer(local_views(self.answers@), input.question_id@)));
        }
        self.db.queue_answer(self.snapshot.compilation_id.as_str(), &local, request_id.as_str())?;
        self.reload_answers();
        Ok(self.snapshot.websocket_connected && self.access_token.is_some())
    }

    /// What saving an answer reports: the loaded answer to the question,
    /// queued unless synchronised.
    pub fn save_outcome(&self, question_id: &str) -> (r: Result<SaveAnswerOutcome, AppError>)
        ensures
            match first_answer(local_views(self.answers@), question_id@) {
                Some(a) => r matches Ok(o) && o.question_id@ == a.question_id && o.client_revision
                    == a.client_revision && o.server_revision == a.server_revision && o.idempotent is None
                    && o.queued == (a.sync_state != AnswerSyncState::Synced),
                None => r matches Err(e) && e@ == ErrorView::Storage("risposta locale assente dopo il commit SQLite"@),
            },
    {
        match self.find_loaded(&String::from_str(question_id)) {
            Some(i) => {
                let a = &self.answers[i];
                Ok(SaveAnswerOutcome {
                    question_id: a.question_id.clone(),
                    client_revision: a.client_revision,
                    server_revision: a.server_revision,
                    idempotent: None,
                    queued: a.sync_state != AnswerSyncState::Synced,
                })
            },
            None => Err(AppError::Storage(String::from_str("risposta locale assente dopo il commit SQLite"))),
        }
    }

    /// `sync_pending_answers`, before sending: the connection must be up and
    /// the attempt running; failed entries and answers become pending again.
    pub fn begin_sync(&mut self) -> (r: Result<(), AppError>)
        requires
            old(self).db.wf(),
        ensures
            final(self).db.wf(),
            match r {
                Err(e) => unchanged(*old(self), *final(self)) && if !old(self).snapshot.websocket_connected {
                    e@ == ErrorView::Disconnected
                } else {
                    old(self).snapshot.state != ClientState::Running && e@ == ErrorView::InvalidState(
                        "autenticare nuovamente la compilazione prima della sincronizzazione"@,
                    )
                },
                Ok(()) => old(self).snapshot.websocket_connected && old(self).snapshot.state == ClientState::Running
                    && final(self).db@ == retried(old(self).db@) && final(self).config == old(self).config
                    && final(self).snapshot == old(self).snapshot && final(self).access_token == old(self).access_token
                    && final(self).answers@ == old(self).answers@,
            },
    {
        ensure_connected(&self.snapshot)?;
        if self.snapshot.state != ClientState::Running {
            return Err(AppError::InvalidState(
                String::from_str("autenticare nuovamente la compilazione prima della sincronizzazione"),
            ));
        }
        self.db.retry_outbox_errors();
        Ok(())
    }

    /// `submit_attempt`, first check: the connection must be up and the
    /// attempt running.
    pub fn check_submit(&self) -> (r: Result<(), AppError>)
        ensures
            match r {
                Ok(()) => self.snapshot.websocket_connected && self.snapshot.state == ClientState::Running,
                Err(e) => if !self.snapshot.websocket_connected {
                    e@ == ErrorView::Disconnected
                } else {
                    self.snapshot.state != ClientState::Running && e@ == ErrorView::InvalidState(
                        "la compilazione non è nello stato RUNNING"@,
                    )
                },
            },
    {
        ensure_connected(&self.snapshot)?;
        if self.snapshot.state != ClientState::Running {
            return Err(AppError::InvalidState(String::from_str("la compilazione non è nello stato RUNNING")));
        }
        Ok(())
    }

    /// `submit_attempt`, after sending the outbox: the submit is refused
    /// while entries are pending or failed; otherwise the attempt is
    /// submitting. Returns the `compilazione.submit` data.
    pub fn begin_submit(&mut self, sync: &SyncSummary) -> (r: Result<String, AppError>)
        requires
            old(self).db.wf(),
        ensures
            final(self).db.wf(),
            final(self).config == old(self).config,
            final(self).access_token == old(self).access_token,
            final(self).answers@ == old(self).answers@,
            final(self).db@ == old(self).db@,
            match r {
                Err(e) => (sync.pending > 0 || sync.errors > 0) && final(self).snapshot == old(self).snapshot
                    && e@ == ErrorView::InvalidState(
                    "outbox non vuota: "@ + decimal_text(sync.pending as nat) + " pendenti, "@ + decimal_text(
                        sync.errors as nat,
                    ) + " errori"@,
                ),
                Ok(data) => sync.pending == 0 && sync.errors == 0 && final(self).snapshot == (ClientSnapshot {
                    state: ClientState::Submitting,
                    ..old(self).snapshot
                }) && data@ == compilation_data_text(old(self).snapshot.compilation_id@),
            },
    {
        if sync.pending > 0 || sync.errors > 0 {
            let message = String::from_str("outbox non vuota: ").concat(decimal(sync.pending).as_str()).concat(
                " pendenti, ",
            ).concat(decimal(sync.errors).as_str()).concat(" errori");
            return Err(AppError::InvalidState(message));
        }
        self.snapshot.state = ClientState::Submitting;
        Ok(compilation_data(self.snapshot.compilation_id.as_str()))
    }

    /// `submit_attempt`, with the server's answer. A failure puts the attempt
    /// back to running and is stored; an answer that is not a submit is
    /// refused; otherwise the attempt is submitted: the store is recreated
    /// with only the final state, the answers and the token are dropped.
    pub fn finish_submit(&mut self, outcome: Result<SubmitData, AppError>) -> (r: Result<SubmitResult, AppError>)
        requires
            old(self).db.wf(),
        ensures
            final(self).db.wf(),
            final(self).config == old(self).config,
            match outcome {
                Err(e0) => r == Err::<SubmitResult, AppError>(e0) && shows_error(
                    old(self).snapshot,
                    final(self).snapshot,
                    ClientState::Running,
                    e0@,
                ) && final(self).access_token == old(self).access_token && final(self).answers@ == old(self).answers@
                    && final(self).db@ == with_state(old(self).db@, final(self).config, final(self).snapshot),
                Ok(d) => if d.state@ != "SUBMITTED"@ {
                    r matches Err(e) && e@ == ErrorView::Protocol("stato inatteso dopo compilazione.submit: "@ + d.state@)
                        && final(self).snapshot == (ClientSnapshot { state: ClientState::Running, ..old(self).snapshot })
                        && final(self).access_token == old(self).access_token && final(self).answers@ == old(self).answers@
                        && final(self).db@ == old(self).db@
                } else {
                    &&& r matches Ok(result) && result.snapshot == final(self).snapshot && result.receipt == d.receipt
                        && result.submitted_at == d.submitted_at && result.idempotent == d.idempotent
                    &&& final(self).snapshot == submitted_snapshot(old(self).snapshot, d)
                    &&& final(self).db@ == recreated(old(self).db@, final(self).config, final(self).snapshot)
                    &&& final(self).answers@.len() == 0
                    &&& final(self).access_token is None
                },
            },
    {
        match outcome {
            Err(error) => {
                self.snapshot.state = ClientState::Running;
                self.snapshot.last_error = Some(error.message());
                self.persist();
                Err(error)
            },
            Ok(data) => {
                if !(data.state == String::from_str("SUBMITTED")) {
                    self.snapshot.state = ClientState::Running;
                    return Err(AppError::Protocol(
                        String::from_str("stato inatteso dopo compilazione.submit: ").concat(data.state.as_str()),
                    ));
                }
                self.snapshot.state = ClientState::Submitted;
                self.snapshot.websocket_connected = false;
                self.snapshot.receipt = Some(data.receipt.clone());
                self.snapshot.submitted_at = Some(data.submitted_at.clone());
                self.snapshot.last_error = None;
                self.db.recreate_with_state(&self.config, &self.snapshot);
                self.answers = Vec::new();
                self.access_token = None;
                Ok(SubmitResult {
                    snapshot: self.snapshot.clone(),
                    receipt: data.receipt,
                    submitted_at: data.submitted_at,
                    idempotent: data.idempotent,
                })
            },
        }
    }
}

} // verus!
