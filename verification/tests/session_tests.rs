use quaestio_client::error::AppError;
use quaestio_client::model::{
    ActivateAttemptData, ActivateAttemptInput, AnswerSyncState, Checkpoint, ClientConfig, ClientSnapshot,
    ClientState, ConfigureClientInput, LocalAnswer, Question, Questionnaire, QuestionnaireReadData, SaveAnswerInput,
    StartAttemptData, SubmitData, SyncSummary,
};
use quaestio_client::session::{
    attempt_is_expired, ensure_attempt_active, ensure_connected, expired_at, nonblank, token_from_file, ClientCore,
};
use quaestio_client::store::Database;

fn defaults() -> ClientConfig {
    ClientConfig::from_env_values(None, None, None, None)
}

fn fresh_core(token: Option<&str>) -> ClientCore {
    let (core, imported) = ClientCore::open_at(
        Database::new("db.sqlite3"),
        defaults(),
        None,
        token.map(|t| t.to_string()),
        (1_700_000_000, 0),
    )
    .unwrap();
    assert!(!imported);
    core
}

fn running_core() -> ClientCore {
    let mut core = fresh_core(Some("jwt"));
    core.snapshot.websocket_connected = true;
    core.snapshot.state = ClientState::Running;
    core
}

fn input(question: &str, revision: u64, answer: &str) -> SaveAnswerInput {
    SaveAnswerInput { question_id: question.to_string(), client_revision: revision, answer: answer.to_string() }
}

fn questionnaire() -> Questionnaire {
    Questionnaire {
        questionnaire_id: "qq".to_string(),
        revision: 1,
        title: "T".to_string(),
        questions: vec![Question {
            question_id: "q1".to_string(),
            question_type: "text".to_string(),
            text: "?".to_string(),
            required: false,
            options: Vec::new(),
        }],
    }
}

#[test]
fn default_configuration_values() {
    let c = defaults();
    assert_eq!(c.server_url, "ws://127.0.0.1:32456/hws");
    assert_eq!(c.installation_id, "http-installation-test-1");
    assert_eq!(c.session_id, "ws-session-test-1");
    assert_eq!(c.compilation_id, "tauri-compilation-test-1");
    assert_eq!(c.request_timeout_ms, 8000);
    let c = ClientConfig::from_env_values(Some("ws://h/x".to_string()), None, None, Some("c9".to_string()));
    assert_eq!(c.server_url, "ws://h/x");
    assert_eq!(c.compilation_id, "c9");
}

#[test]
fn fresh_snapshot_from_configuration() {
    let s = ClientSnapshot::from_config(&defaults());
    assert_eq!(s.state, ClientState::Disconnected);
    assert!(!s.websocket_connected);
    assert_eq!(s.server_revision, 0);
    assert_eq!(s.compilation_id, "tauri-compilation-test-1");
    assert!(s.expires_at.is_none() && s.receipt.is_none() && s.last_error.is_none());
}

#[test]
fn opening_a_new_store_saves_defaults() {
    let core = fresh_core(Some("tok"));
    assert_eq!(core.snapshot.state, ClientState::Disconnected);
    assert_eq!(core.access_token.as_deref(), Some("tok"));
    let (c, s) = core.db.load_state().unwrap();
    assert_eq!(c.server_url, "ws://127.0.0.1:32456/hws");
    assert_eq!(s.state, ClientState::Disconnected);
}

#[test]
fn opening_after_a_crash_leaves_a_running_attempt_offline() {
    let mut db = Database::new("db");
    let c = defaults();
    let mut s = ClientSnapshot::from_config(&c);
    s.state = ClientState::Running;
    s.websocket_connected = true;
    s.expires_at = Some("2100-01-01T00:00:00Z".to_string());
    db.save_state(&c, &s);
    db.queue_answer(&c.compilation_id, &LocalAnswer {
        question_id: "q1".to_string(),
        client_revision: 1,
        server_revision: None,
        answer: "1".to_string(),
        sync_state: AnswerSyncState::Pending,
        last_error: None,
    }, "r1").unwrap();
    let (core, _) = ClientCore::open_at(db, defaults(), None, None, (1_700_000_000, 0)).unwrap();
    assert_eq!(core.snapshot.state, ClientState::Offline);
    assert!(!core.snapshot.websocket_connected);
    assert_eq!(core.answers.len(), 1);
    assert_eq!(core.db.load_state().unwrap().1.state, ClientState::Offline);
}

#[test]
fn opening_after_expiry_clears_the_attempt() {
    let mut db = Database::new("db");
    let c = defaults();
    let mut s = ClientSnapshot::from_config(&c);
    s.state = ClientState::Offline;
    s.expires_at = Some("2020-01-01T00:00:00Z".to_string());
    db.save_state(&c, &s);
    db.queue_answer(&c.compilation_id, &LocalAnswer {
        question_id: "q1".to_string(),
        client_revision: 1,
        server_revision: None,
        answer: "1".to_string(),
        sync_state: AnswerSyncState::Pending,
        last_error: None,
    }, "r1").unwrap();
    let (core, _) = ClientCore::open_at(db, defaults(), None, None, (1_700_000_000, 0)).unwrap();
    assert_eq!(core.snapshot.state, ClientState::Disconnected);
    assert!(core.snapshot.expires_at.is_none());
    assert!(core.answers.is_empty());
    assert_eq!(core.db.outbox_counts(), (0, 0));
}

#[test]
fn opening_imports_an_earlier_state_file() {
    let c = defaults();
    let mut s = ClientSnapshot::from_config(&c);
    s.state = ClientState::Running;
    let cp = Checkpoint {
        config: c.clone(),
        snapshot: s,
        answers: vec![
            LocalAnswer {
                question_id: "q1".to_string(),
                client_revision: 2,
                server_revision: None,
                answer: "\"a\"".to_string(),
                sync_state: AnswerSyncState::Pending,
                last_error: None,
            },
            LocalAnswer {
                question_id: "q2".to_string(),
                client_revision: 1,
                server_revision: Some(4),
                answer: "\"b\"".to_string(),
                sync_state: AnswerSyncState::Synced,
                last_error: None,
            },
        ],
    };
    let (core, imported) = ClientCore::open_at(Database::new("db"), defaults(), Some(cp), None, (0, 0)).unwrap();
    assert!(imported);
    assert_eq!(core.snapshot.state, ClientState::Offline);
    assert_eq!(core.answers.len(), 2);
    let entries = core.db.pending_outbox(10);
    assert_eq!(entries.len(), 1);
    assert_eq!(entries[0].question_id, "q1");
}

#[test]
fn expiry_is_read_as_rfc3339() {
    let mut s = ClientSnapshot::from_config(&defaults());
    s.state = ClientState::Running;
    s.expires_at = Some("2023-11-14T22:13:20+00:00".to_string());
    assert!(expired_at(&s, (1_700_000_000, 0)));
    assert!(!expired_at(&s, (1_699_999_999, 999_999_999)));
    s.expires_at = Some("2023-11-15T00:13:20+02:00".to_string());
    assert!(expired_at(&s, (1_700_000_000, 0)));
    s.expires_at = Some("domani".to_string());
    assert!(!expired_at(&s, (i64::MAX, 0)));
    s.expires_at = Some("2000-01-01T00:00:00Z".to_string());
    assert!(attempt_is_expired(&s));
}

#[test]
fn submitted_attempt_never_expires() {
    let mut s = ClientSnapshot::from_config(&defaults());
    s.state = ClientState::Submitted;
    s.expires_at = Some("2000-01-01T00:00:00Z".to_string());
    assert!(!expired_at(&s, (4_000_000_000, 0)));
    assert!(!attempt_is_expired(&s));
}

#[test]
fn guards_on_connection_and_activity() {
    let mut s = ClientSnapshot::from_config(&defaults());
    assert!(matches!(ensure_connected(&s), Err(AppError::Disconnected)));
    s.websocket_connected = true;
    assert!(ensure_connected(&s).is_ok());
    assert_eq!(
        ensure_attempt_active(&s).unwrap_err().message(),
        "Transizione di stato non valida: la compilazione non è attiva"
    );
    s.state = ClientState::Offline;
    assert!(ensure_attempt_active(&s).is_ok());
}

#[test]
fn configuring_trims_clamps_and_resets() {
    let mut core = running_core();
    core.snapshot.websocket_connected = false;
    let i = ConfigureClientInput {
        server_url: "  ws://x/hws ".to_string(),
        token: "  t0k \n".to_string(),
        installation_id: " i ".to_string(),
        session_id: "s".to_string(),
        compilation_id: "c".to_string(),
        request_timeout_ms: Some(100),
    };
    core.configure_client(&i, false).unwrap();
    assert_eq!(core.config.server_url, "ws://x/hws");
    assert_eq!(core.config.installation_id, "i");
    assert_eq!(core.config.request_timeout_ms, 1000);
    assert_eq!(core.access_token.as_deref(), Some("t0k"));
    assert_eq!(core.snapshot.state, ClientState::Disconnected);
    assert_eq!(core.snapshot.compilation_id, "c");
    let i2 = ConfigureClientInput { token: "   ".to_string(), request_timeout_ms: Some(90_000), ..i };
    core.configure_client(&i2, false).unwrap();
    assert!(core.access_token.is_none());
    assert_eq!(core.config.request_timeout_ms, 60000);
    let i3 = ConfigureClientInput { request_timeout_ms: None, ..i2 };
    core.configure_client(&i3, false).unwrap();
    assert_eq!(core.config.request_timeout_ms, 8000);
}

#[test]
fn configuring_is_refused_while_connected_or_incomplete() {
    let mut core = fresh_core(None);
    let i = ConfigureClientInput {
        server_url: "ws://x".to_string(),
        token: String::new(),
        installation_id: "i".to_string(),
        session_id: " ".to_string(),
        compilation_id: "c".to_string(),
        request_timeout_ms: None,
    };
    assert_eq!(
        core.configure_client(&i, true).unwrap_err().message(),
        "Transizione di stato non valida: disconnettere il WebSocket prima di modificare la configurazione"
    );
    assert_eq!(
        core.configure_client(&i, false).unwrap_err().message(),
        "Transizione di stato non valida: URL e identificativi sono obbligatori"
    );
    assert_eq!(core.config.compilation_id, "tauri-compilation-test-1");
}

#[test]
fn user_disconnect_transitions() {
    let mut core = running_core();
    core.disconnect_server();
    assert_eq!(core.snapshot.state, ClientState::Offline);
    assert!(!core.snapshot.websocket_connected);
    core.snapshot.state = ClientState::Connected;
    core.disconnect_server();
    assert_eq!(core.snapshot.state, ClientState::Disconnected);
    core.snapshot.state = ClientState::Submitted;
    core.disconnect_server();
    assert_eq!(core.snapshot.state, ClientState::Submitted);
}

#[test]
fn activation_flow() {
    let mut core = fresh_core(None);
    let creds = ActivateAttemptInput { username: " mario ".to_string(), password: "pw".to_string() };
    assert!(matches!(core.begin_activation(&creds), Err(AppError::Disconnected)));
    core.snapshot.websocket_connected = true;
    core.snapshot.state = ClientState::Connected;
    let blank = ActivateAttemptInput { username: " ".to_string(), password: "pw".to_string() };
    assert_eq!(
        core.begin_activation(&blank).unwrap_err().message(),
        "Transizione di stato non valida: username e password sono obbligatori"
    );
    let (previous, data) = core.begin_activation(&creds).unwrap();
    assert_eq!(previous, "tauri-compilation-test-1");
    assert!(data.contains("\"username\":\"mario\""));
    assert_eq!(core.snapshot.state, ClientState::Starting);
    let reply = ActivateAttemptData {
        access_token: "jwt".to_string(),
        token_type: "Bearer".to_string(),
        expires_in: 3600,
        compilazione_id: "server-c".to_string(),
        state: "RUNNING".to_string(),
        server_revision: 3,
        started_at: "2030-01-01T00:00:00Z".to_string(),
        expires_at: "2030-01-01T01:00:00Z".to_string(),
    };
    let started = core.finish_activation(&previous, Ok(reply)).unwrap();
    assert_eq!(core.access_token.as_deref(), Some("jwt"));
    core.enter_running(started);
    assert_eq!(core.snapshot.state, ClientState::Running);
    assert_eq!(core.snapshot.compilation_id, "server-c");
    assert_eq!(core.snapshot.server_revision, 3);
    assert_eq!(core.snapshot.expires_at.as_deref(), Some("2030-01-01T01:00:00Z"));
}

#[test]
fn activation_failures() {
    let mut core = fresh_core(None);
    core.snapshot.websocket_connected = true;
    core.snapshot.state = ClientState::Starting;
    let e = core.finish_activation("c", Err(AppError::Timeout("r".to_string()))).unwrap_err();
    assert!(matches!(e, AppError::Timeout(_)));
    assert_eq!(core.snapshot.state, ClientState::Connected);
    assert_eq!(core.snapshot.last_error.as_deref(), Some("Timeout della richiesta r"));
    let reply = ActivateAttemptData {
        access_token: "jwt".to_string(),
        token_type: "Basic".to_string(),
        expires_in: 1,
        compilazione_id: "x".to_string(),
        state: "RUNNING".to_string(),
        server_revision: 0,
        started_at: String::new(),
        expires_at: String::new(),
    };
    let e = core.finish_activation("c", Ok(reply)).unwrap_err();
    assert_eq!(e.message(), "Errore protocollo: risposta auth.activate non valida");
    assert!(core.access_token.is_none());
}

#[test]
fn start_flow_and_unexpected_state() {
    let mut core = fresh_core(Some("jwt"));
    assert!(core.begin_start().is_err());
    core.snapshot.websocket_connected = true;
    let (previous, data) = core.begin_start().unwrap();
    assert_eq!(
        data,
        "{\"compilazione_id\":\"tauri-compilation-test-1\",\"installation_id\":\"http-installation-test-1\",\"sessione_id\":\"ws-session-test-1\"}"
    );
    let reply = StartAttemptData {
        compilazione_id: "c2".to_string(),
        state: "CLOSED".to_string(),
        server_revision: 0,
        started_at: String::new(),
        expires_at: String::new(),
    };
    let e = core.finish_start(&previous, Ok(reply)).unwrap_err();
    assert_eq!(e.message(), "Errore protocollo: stato inatteso dopo compilazione.start: CLOSED");
    let e = core.finish_start(&previous, Err(AppError::Disconnected)).unwrap_err();
    assert!(matches!(e, AppError::Disconnected));
    assert_eq!(core.snapshot.state, ClientState::Connected);
    assert_eq!(core.db.load_state().unwrap().1.last_error.as_deref(), Some("WebSocket non connesso"));
}

#[test]
fn saving_an_answer_queues_it() {
    let mut core = running_core();
    assert!(core.save_answer(&input("q1", 1, "\"x\"")).unwrap());
    let outcome = core.save_outcome("q1").unwrap();
    assert!(outcome.queued);
    assert_eq!(outcome.client_revision, 1);
    assert!(outcome.idempotent.is_none());
    assert_eq!(core.db.outbox_counts(), (1, 0));
    assert_eq!(
        core.save_outcome("q9").unwrap_err().message(),
        "Errore storage: risposta locale assente dopo il commit SQLite"
    );
    core.snapshot.state = ClientState::Disconnected;
    assert!(core.save_answer(&input("q1", 2, "1")).is_err());
    core.snapshot.state = ClientState::Offline;
    core.snapshot.websocket_connected = false;
    assert!(!core.save_answer(&input("q1", 2, "1")).unwrap());
    assert_eq!(core.db.outbox_counts(), (2, 0));
}

#[test]
fn loading_the_questionnaire() {
    let mut core = running_core();
    let data = core.begin_load_questionnaire().unwrap().unwrap();
    assert_eq!(data, "{\"compilazione_id\":\"tauri-compilation-test-1\"}");
    let read = QuestionnaireReadData {
        compilazione_id: "tauri-compilation-test-1".to_string(),
        state: "RUNNING".to_string(),
        server_revision: 8,
        expires_at: "2031-01-01T00:00:00Z".to_string(),
        questionario: questionnaire(),
        answers: Vec::new(),
    };
    let q = core.finish_read(Ok(read)).unwrap();
    assert_eq!(q.questionnaire_id, "qq");
    assert_eq!(core.snapshot.server_revision, 8);
    let cached = core.finish_read(Err(AppError::Disconnected)).unwrap();
    assert_eq!(cached.questions.len(), 1);
    assert_eq!(core.snapshot.last_error.as_deref(), Some("WebSocket non connesso"));
    core.snapshot.websocket_connected = false;
    assert!(core.begin_load_questionnaire().unwrap().is_none());
    assert_eq!(core.cached_questionnaire().unwrap().title, "T");
}

#[test]
fn questionnaire_unavailable_offline_without_cache() {
    let mut core = running_core();
    core.snapshot.websocket_connected = false;
    assert_eq!(
        core.cached_questionnaire().unwrap_err().message(),
        "Transizione di stato non valida: questionario non disponibile nella cache SQLite"
    );
    assert!(matches!(core.finish_read(Err(AppError::Disconnected)), Err(AppError::Disconnected)));
    core.snapshot.state = ClientState::Submitted;
    assert!(core.begin_load_questionnaire().is_err());
}

#[test]
fn sync_and_submit_preconditions() {
    let mut core = running_core();
    core.snapshot.state = ClientState::Offline;
    assert_eq!(
        core.begin_sync().unwrap_err().message(),
        "Transizione di stato non valida: autenticare nuovamente la compilazione prima della sincronizzazione"
    );
    assert_eq!(
        core.check_submit().unwrap_err().message(),
        "Transizione di stato non valida: la compilazione non è nello stato RUNNING"
    );
    core.snapshot.websocket_connected = false;
    assert!(matches!(core.check_submit(), Err(AppError::Disconnected)));
    core.snapshot.websocket_connected = true;
    core.snapshot.state = ClientState::Running;
    assert!(core.begin_sync().is_ok());
    assert!(core.check_submit().is_ok());
}

#[test]
fn submit_is_refused_while_outbox_not_empty() {
    let mut core = running_core();
    let sync = SyncSummary { attempted: 1, synced: 0, pending: 1, errors: 2, last_error: None };
    assert_eq!(
        core.begin_submit(&sync).unwrap_err().message(),
        "Transizione di stato non valida: outbox non vuota: 1 pendenti, 2 errori"
    );
    assert_eq!(core.snapshot.state, ClientState::Running);
}

#[test]
fn submit_clears_local_data_and_token() {
    let mut core = running_core();
    core.save_answer(&input("q1", 1, "1")).unwrap();
    let sync = SyncSummary { attempted: 0, synced: 0, pending: 0, errors: 0, last_error: None };
    let data = core.begin_submit(&sync).unwrap();
    assert_eq!(data, "{\"compilazione_id\":\"tauri-compilation-test-1\"}");
    assert_eq!(core.snapshot.state, ClientState::Submitting);
    let reply = SubmitData {
        state: "SUBMITTED".to_string(),
        submitted_at: "2030-01-01T00:00:00Z".to_string(),
        receipt: "RCPT".to_string(),
        idempotent: false,
    };
    let result = core.finish_submit(Ok(reply)).unwrap();
    assert_eq!(result.receipt, "RCPT");
    assert_eq!(result.snapshot.state, ClientState::Submitted);
    assert!(!core.snapshot.websocket_connected);
    assert!(core.access_token.is_none());
    assert!(core.answers.is_empty());
    assert_eq!(core.db.outbox_counts(), (0, 0));
    assert_eq!(core.db.load_state().unwrap().1.receipt.as_deref(), Some("RCPT"));
}

#[test]
fn submit_failures_return_to_running() {
    let mut core = running_core();
    core.snapshot.state = ClientState::Submitting;
    let e = core.finish_submit(Err(AppError::Timeout("r".to_string()))).unwrap_err();
    assert!(matches!(e, AppError::Timeout(_)));
    assert_eq!(core.snapshot.state, ClientState::Running);
    core.snapshot.state = ClientState::Submitting;
    let reply = SubmitData { state: "OPEN".to_string(), submitted_at: String::new(), receipt: String::new(), idempotent: false };
    let e = core.finish_submit(Ok(reply)).unwrap_err();
    assert_eq!(e.message(), "Errore protocollo: stato inatteso dopo compilazione.submit: OPEN");
    assert_eq!(core.snapshot.state, ClientState::Running);
    assert_eq!(core.access_token.as_deref(), Some("jwt"));
}

#[test]
fn runtime_reports_counts_and_token() {
    let mut core = running_core();
    core.save_answer(&input("q1", 1, "1")).unwrap();
    core.record_monitor_count(2);
    let r = core.runtime(true);
    assert!(r.token_loaded);
    assert!(r.fullscreen);
    assert_eq!(r.pending_outbox, 1);
    assert_eq!(r.outbox_errors, 0);
    assert_eq!(r.sqlite_path, "db.sqlite3");
    assert_eq!(r.snapshot.monitor_count, Some(2));
    assert_eq!(r.answers.len(), 1);
}

#[test]
fn environment_values_and_token_file() {
    assert_eq!(nonblank(Some(" tok ".to_string())).as_deref(), Some(" tok "));
    assert!(nonblank(Some(" \t".to_string())).is_none());
    assert!(nonblank(None).is_none());
    assert_eq!(token_from_file("  abc\n").as_deref(), Some("abc"));
    assert!(token_from_file("\n\n").is_none());
    assert_eq!(token_from_file("\u{3000}a b\u{2028}\u{85}").as_deref(), Some("a b"));
    assert_eq!(token_from_file("\u{200B}x").as_deref(), Some("\u{200B}x"));
}

#[test]
fn submitted_attempt_stays_submitted_after_restart() {
    let mut db = Database::new("db");
    let c = defaults();
    let mut s = ClientSnapshot::from_config(&c);
    s.state = ClientState::Submitted;
    s.expires_at = Some("2000-01-01T00:00:00Z".to_string());
    s.receipt = Some("R".to_string());
    db.save_state(&c, &s);
    let (core, _) = ClientCore::open_at(db, defaults(), None, None, (1_700_000_000, 0)).unwrap();
    assert_eq!(core.snapshot.state, ClientState::Submitted);
    assert_eq!(core.snapshot.receipt.as_deref(), Some("R"));
}

#[test]
fn valid_read_yields_the_questionnaire() {
    let mut core = running_core();
    core.save_answer(&input("q1", 1, "\"mine\"")).unwrap();
    let read = QuestionnaireReadData {
        compilazione_id: "tauri-compilation-test-1".to_string(),
        state: "RUNNING".to_string(),
        server_revision: 4,
        expires_at: "2031-01-01T00:00:00Z".to_string(),
        questionario: questionnaire(),
        answers: vec![quaestio_client::model::ServerAnswer {
            question_id: "q2".to_string(),
            client_revision: 1,
            server_revision: 2,
            answer: "\"theirs\"".to_string(),
        }],
    };
    let q = core.finish_read(Ok(read)).unwrap();
    assert_eq!(q.title, "T");
    assert_eq!(core.answers.len(), 2);
    assert_eq!(core.snapshot.expires_at.as_deref(), Some("2031-01-01T00:00:00Z"));
    assert!(core.snapshot.last_error.is_none());
    assert_eq!(core.db.load_cached_questionnaire("tauri-compilation-test-1").unwrap().questionnaire_id, "qq");
}
