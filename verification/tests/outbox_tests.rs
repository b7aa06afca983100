use quaestio_client::error::AppError;
use quaestio_client::model::{AnswerSyncState, ClientConfig, ClientState, SaveAnswerInput, SaveAnswerResult};
use quaestio_client::session::ClientCore;
use quaestio_client::store::Database;

fn running(token: Option<&str>, connected: bool) -> ClientCore {
    let (mut core, _) = ClientCore::open_at(
        Database::new("db"),
        ClientConfig::from_env_values(None, None, None, None),
        None,
        token.map(|t| t.to_string()),
        (1_700_000_000, 0),
    )
    .unwrap();
    core.snapshot.state = ClientState::Running;
    core.snapshot.websocket_connected = connected;
    core
}

fn save(core: &mut ClientCore, question: &str, revision: u64) {
    core.save_answer(&SaveAnswerInput {
        question_id: question.to_string(),
        client_revision: revision,
        answer: format!("\"{question}-{revision}\""),
    })
    .unwrap();
}

fn stored(question: &str, client_revision: u64, server_revision: u64) -> SaveAnswerResult {
    SaveAnswerResult { question_id: question.to_string(), client_revision, server_revision, idempotent: false }
}

#[test]
fn pass_without_connection_sends_nothing() {
    let mut core = running(Some("jwt"), false);
    save(&mut core, "q1", 1);
    let mut run = core.begin_flush();
    assert!(run.is_done());
    assert!(core.next_outbox_entry(&mut run).is_none());
    let summary = core.finish_flush(run).unwrap();
    assert_eq!((summary.attempted, summary.synced, summary.pending, summary.errors), (0, 0, 1, 0));
    assert!(summary.last_error.is_none());
}

#[test]
fn pass_without_token_sends_nothing() {
    let mut core = running(None, true);
    save(&mut core, "q1", 1);
    let run = core.begin_flush();
    assert!(run.is_done());
    assert_eq!(core.finish_flush(run).unwrap().pending, 1);
}

#[test]
fn pass_sends_every_entry_in_order() {
    let mut core = running(Some("jwt"), true);
    save(&mut core, "q2", 1);
    save(&mut core, "q1", 1);
    let mut run = core.begin_flush();
    let first = core.next_outbox_entry(&mut run).unwrap();
    assert_eq!(first.question_id, "q2");
    assert_eq!(run.attempted(), 1);
    core.record_send(&mut run, Ok(stored("q2", 1, 10)));
    let second = core.next_outbox_entry(&mut run).unwrap();
    assert_eq!(second.question_id, "q1");
    core.record_send(&mut run, Ok(stored("q1", 1, 4)));
    assert!(core.next_outbox_entry(&mut run).is_none());
    assert!(run.is_done());
    let summary = core.finish_flush(run).unwrap();
    assert_eq!((summary.attempted, summary.synced, summary.pending, summary.errors), (2, 2, 0, 0));
    assert_eq!(core.snapshot.server_revision, 10);
    assert!(core.answers.iter().all(|a| a.sync_state == AnswerSyncState::Synced));
    assert_eq!(core.db.load_state().unwrap().1.server_revision, 10);
}

#[test]
fn pass_stops_at_first_failure_and_keeps_request_for_retry() {
    let mut core = running(Some("jwt"), true);
    save(&mut core, "q1", 1);
    save(&mut core, "q2", 1);
    let mut run = core.begin_flush();
    let entry = core.next_outbox_entry(&mut run).unwrap();
    core.record_send(&mut run, Err(AppError::Timeout(entry.request_id.clone())));
    assert!(run.is_done());
    assert!(core.next_outbox_entry(&mut run).is_none());
    let summary = core.finish_flush(run).unwrap();
    assert_eq!((summary.attempted, summary.synced, summary.pending, summary.errors), (1, 0, 2, 0));
    let expected = format!("Timeout della richiesta {}", entry.request_id);
    assert_eq!(summary.last_error.as_deref(), Some(expected.as_str()));
    assert_eq!(core.snapshot.last_error.as_deref(), Some(expected.as_str()));
    let mut again = core.begin_flush();
    let resent = core.next_outbox_entry(&mut again).unwrap();
    assert_eq!(resent.request_id, entry.request_id);
    assert_eq!(resent.payload, entry.payload);
}

#[test]
fn refused_answer_marks_entry_failed() {
    let mut core = running(Some("jwt"), true);
    save(&mut core, "q1", 1);
    let mut run = core.begin_flush();
    core.next_outbox_entry(&mut run).unwrap();
    let refusal = AppError::Server { code: "INVALID".to_string(), message: "no".to_string(), retryable: false };
    core.record_send(&mut run, Err(refusal));
    let summary = core.finish_flush(run).unwrap();
    assert_eq!((summary.pending, summary.errors), (0, 1));
    assert_eq!(summary.last_error.as_deref(), Some("Errore server INVALID: no"));
    assert_eq!(core.answers[0].sync_state, AnswerSyncState::Error);
}

#[test]
fn recording_without_entry_changes_nothing() {
    let mut core = running(Some("jwt"), true);
    let mut run = core.begin_flush();
    core.record_send(&mut run, Ok(stored("q", 1, 99)));
    assert_eq!(core.snapshot.server_revision, 0);
    let summary = core.finish_flush(run).unwrap();
    assert_eq!(summary.synced, 0);
}

#[test]
fn acknowledgement_beyond_sqlite_is_an_error() {
    let mut core = running(Some("jwt"), true);
    save(&mut core, "q1", 1);
    let mut run = core.begin_flush();
    core.next_outbox_entry(&mut run).unwrap();
    core.record_send(&mut run, Ok(stored("q1", 1, u64::MAX)));
    assert_eq!(core.snapshot.server_revision, 0);
    assert!(run.is_done());
    assert!(!run.sending());
    assert!(core.next_outbox_entry(&mut run).is_none());
    let e = core.finish_flush(run).unwrap_err();
    assert!(matches!(e, AppError::Storage(_)));
    assert_eq!(core.db.outbox_rows().len(), 1);
}

#[test]
fn pass_with_one_failure_counts_it_once() {
    let mut core = running(Some("jwt"), true);
    save(&mut core, "q1", 1);
    save(&mut core, "q2", 1);
    let mut run = core.begin_flush();
    core.next_outbox_entry(&mut run).unwrap();
    assert!(run.sending());
    core.record_send(&mut run, Ok(stored("q1", 1, 3)));
    assert!(!run.sending());
    core.next_outbox_entry(&mut run).unwrap();
    core.record_send(&mut run, Err(AppError::Disconnected));
    let summary = core.finish_flush(run).unwrap();
    assert_eq!((summary.attempted, summary.synced), (2, 1));
    assert_eq!(summary.last_error.as_deref(), Some("WebSocket non connesso"));
}

#[test]
fn error_texts_and_retry_classes() {
    let cases = [
        (AppError::InvalidState("x".to_string()), "Transizione di stato non valida: x", false),
        (AppError::Disconnected, "WebSocket non connesso", true),
        (AppError::Timeout("r".to_string()), "Timeout della richiesta r", true),
        (AppError::Tauri("w".to_string()), "Errore Tauri: w", false),
        (AppError::Io("f".to_string()), "Errore I/O: f", false),
        (AppError::Json("j".to_string()), "Errore JSON: j", false),
        (AppError::Sqlite("s".to_string()), "Errore SQLite: s", false),
        (AppError::Storage("d".to_string()), "Errore storage: d", false),
        (AppError::Protocol("p".to_string()), "Errore protocollo: p", false),
        (AppError::Server { code: "C".to_string(), message: "m".to_string(), retryable: true }, "Errore server C: m", true),
    ];
    for (e, text, retryable) in cases.iter() {
        assert_eq!(e.message(), *text);
        assert_eq!(e.is_retryable(), *retryable);
    }
}

#[test]
fn offline_answer_waits_then_syncs_after_reconnection() {
    let mut core = running(Some("jwt"), true);
    core.transport_lost("stream WebSocket terminato");
    assert_eq!(core.snapshot.state, ClientState::Offline);
    save(&mut core, "q1", 1);
    let r = core.runtime(false);
    assert_eq!(r.pending_outbox, 1);
    assert_eq!(r.answers[0].sync_state, AnswerSyncState::Pending);
    core.transport_connected();
    assert_eq!(core.snapshot.state, ClientState::Running);
    core.begin_sync().unwrap();
    let mut run = core.begin_flush();
    let entry = core.next_outbox_entry(&mut run).unwrap();
    core.record_send(&mut run, Ok(stored(&entry.question_id, entry.client_revision, 1)));
    assert!(core.next_outbox_entry(&mut run).is_none());
    let summary = core.finish_flush(run).unwrap();
    assert_eq!((summary.synced, summary.pending), (1, 0));
    assert_eq!(core.answers[0].sync_state, AnswerSyncState::Synced);
}

#[test]
fn answer_survives_crash_during_send_and_is_sent_again() {
    let mut core = running(Some("jwt"), true);
    save(&mut core, "q1", 1);
    let mut run = core.begin_flush();
    let entry = core.next_outbox_entry(&mut run).unwrap();
    let rows = core.db.outbox_rows().clone();
    let answers = core.db.answer_rows().clone();
    let state = core.db.load_state();
    let reopened = Database::open("db", state, answers, rows, core.db.last_sequence(), Vec::new());
    let (mut again, _) = ClientCore::open_at(
        reopened,
        ClientConfig::from_env_values(None, None, None, None),
        None,
        Some("jwt".to_string()),
        (1_700_000_000, 0),
    )
    .unwrap();
    assert_eq!(again.answers.len(), 1);
    assert_eq!(again.answers[0].sync_state, AnswerSyncState::Pending);
    again.transport_connected();
    let mut run = again.begin_flush();
    let resent = again.next_outbox_entry(&mut run).unwrap();
    assert_eq!(resent.request_id, entry.request_id);
    assert_eq!(resent.payload, entry.payload);
}

#[test]
fn entry_handed_out_is_recorded_before_the_next() {
    let mut core = running(Some("jwt"), true);
    save(&mut core, "q1", 1);
    save(&mut core, "q2", 1);
    let mut run = core.begin_flush();
    assert!(core.next_outbox_entry(&mut run).is_some());
    assert!(core.next_outbox_entry(&mut run).is_none());
    assert_eq!(run.attempted(), 1);
    core.record_send(&mut run, Ok(stored("q1", 1, 1)));
    assert_eq!(core.next_outbox_entry(&mut run).unwrap().question_id, "q2");
}
