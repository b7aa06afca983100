use quaestio_client::error::AppError;
use quaestio_client::model::{
    AnswerSyncState, ClientConfig, ClientSnapshot, ClientState, LocalAnswer, Question, QuestionOption,
    Questionnaire, SaveAnswerResult, ServerAnswer,
};
use quaestio_client::store::{
    check_schema_version, outbox_status_as_str, outbox_status_from_str, sync_state_as_str, sync_state_from_str, to_i64, to_u64,
    AnswerRow, Database, OutboxRow, OutboxStatus,
};

fn config() -> ClientConfig {
    ClientConfig {
        server_url: "ws://127.0.0.1:32456/hws".to_string(),
        installation_id: "inst-1".to_string(),
        session_id: "sess-1".to_string(),
        compilation_id: "comp-1".to_string(),
        request_timeout_ms: 8000,
    }
}

fn answer(question: &str, revision: u64, json: &str) -> LocalAnswer {
    LocalAnswer {
        question_id: question.to_string(),
        client_revision: revision,
        server_revision: None,
        answer: json.to_string(),
        sync_state: AnswerSyncState::Pending,
        last_error: None,
    }
}

fn ack(question: &str, client_revision: u64, server_revision: u64) -> SaveAnswerResult {
    SaveAnswerResult {
        question_id: question.to_string(),
        client_revision,
        server_revision,
        idempotent: false,
    }
}

fn message(e: &AppError) -> String {
    e.message()
}

#[test]
fn new_store_is_empty() {
    let db = Database::new("/tmp/q.sqlite3");
    assert_eq!(db.path(), "/tmp/q.sqlite3");
    assert!(db.load_state().is_none());
    assert_eq!(db.outbox_counts(), (0, 0));
    assert!(db.pending_outbox(10).is_empty());
    assert!(db.load_answers("comp-1").is_empty());
    assert_eq!(db.last_sequence(), 0);
}

#[test]
fn save_state_then_load_state() {
    let mut db = Database::new("db");
    let c = config();
    let s = ClientSnapshot::from_config(&c);
    db.save_state(&c, &s);
    let (c2, s2) = db.load_state().unwrap();
    assert_eq!(c2.compilation_id, "comp-1");
    assert_eq!(s2.state, ClientState::Disconnected);
    assert_eq!(s2.server_url, "ws://127.0.0.1:32456/hws");
}

#[test]
fn queue_writes_answer_and_outbox_entry() {
    let mut db = Database::new("db");
    db.queue_answer("comp-1", &answer("q1", 1, "{\"v\":1}"), "req-1").unwrap();
    let answers = db.load_answers("comp-1");
    assert_eq!(answers.len(), 1);
    assert_eq!(answers[0].question_id, "q1");
    assert_eq!(answers[0].sync_state, AnswerSyncState::Pending);
    let entries = db.pending_outbox(10);
    assert_eq!(entries.len(), 1);
    assert_eq!(entries[0].sequence, 1);
    assert_eq!(entries[0].request_id, "req-1");
    assert_eq!(entries[0].command, "compilazione.save-answer");
    assert_eq!(
        entries[0].payload,
        "{\"answer\":{\"v\":1},\"client_revision\":1,\"compilazione_id\":\"comp-1\",\"domanda_id\":\"q1\"}"
    );
    assert_eq!(db.outbox_counts(), (1, 0));
    assert_eq!(db.last_sequence(), 1);
}

#[test]
fn queue_with_used_request_id_changes_nothing() {
    let mut db = Database::new("db");
    db.queue_answer("comp-1", &answer("q1", 1, "1"), "req-1").unwrap();
    let e = db.queue_answer("comp-1", &answer("q2", 1, "2"), "req-1").unwrap_err();
    assert!(matches!(&e, AppError::Sqlite(t) if t == "UNIQUE constraint failed: outbox.request_id"));
    assert_eq!(message(&e), "Errore SQLite: UNIQUE constraint failed: outbox.request_id");
    assert_eq!(db.load_answers("comp-1").len(), 1);
    assert_eq!(db.outbox_counts(), (1, 0));
}

#[test]
fn queue_with_revision_beyond_sqlite_is_refused() {
    let mut db = Database::new("db");
    let e = db.queue_answer("comp-1", &answer("q1", u64::MAX, "1"), "req-1").unwrap_err();
    assert_eq!(message(&e), "Errore storage: valore troppo grande per SQLite: 18446744073709551615");
    assert!(db.load_answers("comp-1").is_empty());
    assert_eq!(db.outbox_counts(), (0, 0));
}

#[test]
fn acknowledgement_removes_entry_and_syncs_answer() {
    let mut db = Database::new("db");
    db.queue_answer("comp-1", &answer("q1", 3, "\"x\""), "req-1").unwrap();
    let entry = db.pending_outbox(1).pop().unwrap();
    db.mark_outbox_in_flight(entry.sequence);
    assert!(db.pending_outbox(1).is_empty());
    assert_eq!(db.outbox_counts(), (1, 0));
    db.acknowledge_outbox(&entry, &ack("q1", 3, 42)).unwrap();
    assert_eq!(db.outbox_counts(), (0, 0));
    let answers = db.load_answers("comp-1");
    assert_eq!(answers[0].sync_state, AnswerSyncState::Synced);
    assert_eq!(answers[0].server_revision, Some(42));
    assert!(answers[0].last_error.is_none());
}

#[test]
fn acknowledgement_of_older_revision_keeps_newer_change_pending() {
    let mut db = Database::new("db");
    db.queue_answer("comp-1", &answer("q1", 1, "\"a\""), "req-1").unwrap();
    db.queue_answer("comp-1", &answer("q1", 2, "\"b\""), "req-2").unwrap();
    let first = db.pending_outbox(1).pop().unwrap();
    assert_eq!(first.request_id, "req-1");
    db.mark_outbox_in_flight(first.sequence);
    db.acknowledge_outbox(&first, &ack("q1", 1, 7)).unwrap();
    let answers = db.load_answers("comp-1");
    assert_eq!(answers[0].client_revision, 2);
    assert_eq!(answers[0].sync_state, AnswerSyncState::Pending);
    assert_eq!(answers[0].server_revision, Some(7));
    assert_eq!(db.outbox_counts(), (1, 0));
    assert_eq!(db.pending_outbox(5)[0].request_id, "req-2");
}

#[test]
fn retryable_failure_resends_same_request() {
    let mut db = Database::new("db");
    db.queue_answer("comp-1", &answer("q1", 1, "true"), "req-1").unwrap();
    let entry = db.pending_outbox(1).pop().unwrap();
    db.mark_outbox_in_flight(entry.sequence);
    db.fail_outbox(&entry, "WebSocket non connesso", true).unwrap();
    let again = db.pending_outbox(1).pop().unwrap();
    assert_eq!(again.request_id, "req-1");
    assert_eq!(again.client_revision, 1);
    assert_eq!(again.payload, entry.payload);
    let answers = db.load_answers("comp-1");
    assert_eq!(answers[0].sync_state, AnswerSyncState::Pending);
    assert_eq!(answers[0].last_error.as_deref(), Some("WebSocket non connesso"));
    let rows = db.outbox_rows();
    assert_eq!(rows[0].attempts, 1);
    assert_eq!(rows[0].status, OutboxStatus::Pending);
}

#[test]
fn failed_entry_holds_back_later_entries_until_retried() {
    let mut db = Database::new("db");
    db.queue_answer("comp-1", &answer("q1", 1, "1"), "req-1").unwrap();
    db.queue_answer("comp-1", &answer("q2", 1, "2"), "req-2").unwrap();
    let entry = db.pending_outbox(1).pop().unwrap();
    db.mark_outbox_in_flight(entry.sequence);
    db.fail_outbox(&entry, "Errore server E: no", false).unwrap();
    assert!(db.pending_outbox(10).is_empty());
    assert_eq!(db.outbox_counts(), (1, 1));
    assert_eq!(db.load_answers("comp-1")[0].sync_state, AnswerSyncState::Error);
    db.retry_outbox_errors();
    assert_eq!(db.outbox_counts(), (2, 0));
    let entries = db.pending_outbox(10);
    assert_eq!(entries.len(), 2);
    assert_eq!(entries[0].request_id, "req-1");
    assert_eq!(entries[1].request_id, "req-2");
    let answers = db.load_answers("comp-1");
    assert_eq!(answers[0].sync_state, AnswerSyncState::Pending);
    assert!(answers[0].last_error.is_none());
}

#[test]
fn entries_are_handed_out_in_queue_order_up_to_the_limit() {
    let mut db = Database::new("db");
    db.queue_answer("comp-1", &answer("z", 1, "1"), "r1").unwrap();
    db.queue_answer("comp-1", &answer("a", 1, "2"), "r2").unwrap();
    db.queue_answer("comp-1", &answer("m", 1, "3"), "r3").unwrap();
    let two = db.pending_outbox(2);
    assert_eq!(two.len(), 2);
    assert_eq!(two[0].sequence, 1);
    assert_eq!(two[1].sequence, 2);
    assert_eq!(db.pending_outbox(0).len(), 0);
    let answers = db.load_answers("comp-1");
    let mut ids: Vec<&str> = answers.iter().map(|a| a.question_id.as_str()).collect();
    ids.sort();
    assert_eq!(ids, vec!["a", "m", "z"]);
}

#[test]
fn questionnaire_cache_round_trip() {
    let mut db = Database::new("db");
    assert!(db.load_cached_questionnaire("comp-1").is_none());
    let q = Questionnaire {
        questionnaire_id: "qq".to_string(),
        revision: 2,
        title: "Titolo".to_string(),
        questions: vec![Question {
            question_id: "q1".to_string(),
            question_type: "choice".to_string(),
            text: "Domanda".to_string(),
            required: true,
            options: vec![QuestionOption { option_id: "o1".to_string(), text: "Uno".to_string() }],
        }],
    };
    db.cache_questionnaire("comp-1", &q).unwrap();
    let back = db.load_cached_questionnaire("comp-1").unwrap();
    assert_eq!(back.questionnaire_id, "qq");
    assert_eq!(back.revision, 2);
    assert_eq!(back.questions[0].options[0].text, "Uno");
    assert!(db.load_cached_questionnaire("comp-2").is_none());
}

#[test]
fn clearing_attempt_data_keeps_state() {
    let mut db = Database::new("db");
    let c = config();
    db.save_state(&c, &ClientSnapshot::from_config(&c));
    db.queue_answer("comp-1", &answer("q1", 1, "1"), "r1").unwrap();
    db.clear_attempt_data();
    assert!(db.load_answers("comp-1").is_empty());
    assert_eq!(db.outbox_counts(), (0, 0));
    assert!(db.load_state().is_some());
}

#[test]
fn completing_submit_leaves_only_final_state() {
    let mut db = Database::new("db");
    let c = config();
    db.queue_answer("comp-1", &answer("q1", 1, "1"), "r1").unwrap();
    let mut s = ClientSnapshot::from_config(&c);
    s.state = ClientState::Submitted;
    db.complete_submit(&c, &s, "comp-1");
    assert!(db.load_answers("comp-1").is_empty());
    assert_eq!(db.outbox_counts(), (0, 0));
    assert_eq!(db.load_state().unwrap().1.state, ClientState::Submitted);
}

#[test]
fn recreating_store_keeps_path_and_state_only() {
    let mut db = Database::new("file.sqlite3");
    let c = config();
    db.queue_answer("comp-1", &answer("q1", 1, "1"), "r1").unwrap();
    let s = ClientSnapshot::from_config(&c);
    db.recreate_with_state(&c, &s);
    assert_eq!(db.path(), "file.sqlite3");
    assert_eq!(db.last_sequence(), 0);
    assert_eq!(db.outbox_counts(), (0, 0));
    assert!(db.answer_rows().is_empty());
    assert!(db.load_state().is_some());
}

#[test]
fn rebinding_moves_answers_and_entries() {
    let mut db = Database::new("db");
    db.queue_answer("old", &answer("q1", 1, "1"), "r1").unwrap();
    db.rebind_compilation("old", "new");
    assert!(db.load_answers("old").is_empty());
    assert_eq!(db.load_answers("new").len(), 1);
    let entry = db.pending_outbox(1).pop().unwrap();
    assert_eq!(entry.compilation_id, "new");
    assert!(entry.payload.contains("\"compilazione_id\":\"new\""));
}

#[test]
fn reconciliation_takes_server_copy_and_requeues_lost_answers() {
    let mut db = Database::new("db");
    db.queue_answer("comp-1", &answer("q1", 1, "\"local\""), "r1").unwrap();
    db.queue_answer("comp-1", &answer("q2", 1, "\"lost\""), "r2").unwrap();
    let e1 = db.pending_outbox(1).pop().unwrap();
    db.mark_outbox_in_flight(e1.sequence);
    db.acknowledge_outbox(&e1, &ack("q1", 1, 5)).unwrap();
    let e2 = db.pending_outbox(1).pop().unwrap();
    db.mark_outbox_in_flight(e2.sequence);
    db.acknowledge_outbox(&e2, &ack("q2", 1, 6)).unwrap();
    let server = vec![ServerAnswer {
        question_id: "q1".to_string(),
        client_revision: 2,
        server_revision: 9,
        answer: "\"server\"".to_string(),
    }];
    db.reconcile_server_answers("comp-1", &server).unwrap();
    let answers = db.load_answers("comp-1");
    let q1 = answers.iter().find(|a| a.question_id == "q1").unwrap();
    assert_eq!(q1.answer, "\"server\"");
    assert_eq!(q1.sync_state, AnswerSyncState::Synced);
    assert_eq!(q1.server_revision, Some(9));
    let q2 = answers.iter().find(|a| a.question_id == "q2").unwrap();
    assert_eq!(q2.sync_state, AnswerSyncState::Pending);
    assert_eq!(q2.server_revision, None);
    let entries = db.pending_outbox(10);
    assert_eq!(entries.len(), 1);
    assert_eq!(entries[0].question_id, "q2");
    assert_eq!(entries[0].request_id.len(), 36);
}

#[test]
fn reconciliation_refuses_revision_beyond_sqlite() {
    let mut db = Database::new("db");
    let server = vec![ServerAnswer {
        question_id: "q1".to_string(),
        client_revision: 1,
        server_revision: u64::MAX,
        answer: "1".to_string(),
    }];
    let e = db.reconcile_server_answers("comp-1", &server).unwrap_err();
    assert!(matches!(e, AppError::Storage(_)));
    assert!(db.load_answers("comp-1").is_empty());
}

fn row(sequence: i64, request: &str, status: OutboxStatus) -> OutboxRow {
    OutboxRow {
        sequence,
        request_id: request.to_string(),
        compilation_id: "comp-1".to_string(),
        question_id: "q1".to_string(),
        client_revision: 1,
        command: "compilazione.save-answer".to_string(),
        answer_json: "1".to_string(),
        status,
        attempts: 1,
        last_error: None,
        created_at: "t".to_string(),
        updated_at: "t".to_string(),
    }
}

#[test]
fn opening_rows_recovers_entries_left_in_flight() {
    let rows = vec![row(1, "r1", OutboxStatus::InFlight), row(2, "r2", OutboxStatus::Pending)];
    let db = Database::open("db", None, Vec::new(), rows, 2, Vec::new());
    let entries = db.pending_outbox(10);
    assert_eq!(entries.len(), 2);
    assert_eq!(entries[0].request_id, "r1");
    assert_eq!(db.outbox_rows()[0].status, OutboxStatus::Pending);
}

#[test]
fn inconsistent_rows_are_recognised() {
    let good = vec![row(1, "r1", OutboxStatus::Pending), row(2, "r2", OutboxStatus::Pending)];
    assert!(Database::rows_are_consistent(&Vec::new(), &good, 2, &Vec::new()));
    assert!(!Database::rows_are_consistent(&Vec::new(), &good, 1, &Vec::new()));
    let rows = vec![row(2, "r1", OutboxStatus::Pending), row(1, "r2", OutboxStatus::Pending)];
    assert!(!Database::rows_are_consistent(&Vec::new(), &rows, 2, &Vec::new()));
    let dup = vec![row(1, "r1", OutboxStatus::Pending), row(2, "r1", OutboxStatus::Pending)];
    assert!(!Database::rows_are_consistent(&Vec::new(), &dup, 2, &Vec::new()));
    let a = AnswerRow {
        compilation_id: "c".to_string(),
        question_id: "q".to_string(),
        client_revision: 1,
        server_revision: None,
        answer_json: "1".to_string(),
        sync_state: AnswerSyncState::Pending,
        last_error: None,
        updated_at: "t".to_string(),
    };
    let b = AnswerRow { updated_at: "u".to_string(), ..a.clone() };
    assert!(Database::rows_are_consistent(&vec![a.clone()], &Vec::new(), 0, &Vec::new()));
    assert!(!Database::rows_are_consistent(&vec![a, b], &Vec::new(), 0, &Vec::new()));
}

#[test]
fn reconciliation_keeps_newer_local_change() {
    let mut db = Database::new("db");
    db.queue_answer("c1", &answer("q1", 2, "\"B\""), "r1").unwrap();
    let server = vec![ServerAnswer {
        question_id: "q1".to_string(),
        client_revision: 1,
        server_revision: 5,
        answer: "\"A\"".to_string(),
    }];
    db.reconcile_server_answers("c1", &server).unwrap();
    let answers = db.load_answers("c1");
    assert_eq!(answers.len(), 1);
    assert_eq!(answers[0].client_revision, 2);
    assert_eq!(answers[0].answer, "\"B\"");
    assert_eq!(answers[0].server_revision, None);
    assert_eq!(answers[0].sync_state, AnswerSyncState::Pending);
    assert_eq!(db.outbox_counts(), (1, 0));
}

#[test]
fn repeated_reconciliation_changes_nothing() {
    let mut db = Database::new("db");
    db.queue_answer("c1", &answer("q2", 1, "2"), "r2").unwrap();
    let e = db.pending_outbox(1).pop().unwrap();
    db.mark_outbox_in_flight(e.sequence);
    db.acknowledge_outbox(&e, &ack("q2", 1, 3)).unwrap();
    let server = vec![ServerAnswer {
        question_id: "q1".to_string(),
        client_revision: 1,
        server_revision: 5,
        answer: "\"A\"".to_string(),
    }];
    db.reconcile_server_answers("c1", &server).unwrap();
    let outbox: Vec<String> = db.outbox_rows().iter().map(|r| r.request_id.clone()).collect();
    let mut answers: Vec<(String, u64)> =
        db.load_answers("c1").iter().map(|a| (a.question_id.clone(), a.client_revision)).collect();
    answers.sort();
    db.reconcile_server_answers("c1", &server).unwrap();
    let outbox2: Vec<String> = db.outbox_rows().iter().map(|r| r.request_id.clone()).collect();
    let mut answers2: Vec<(String, u64)> =
        db.load_answers("c1").iter().map(|a| (a.question_id.clone(), a.client_revision)).collect();
    answers2.sort();
    assert_eq!(outbox, outbox2);
    assert_eq!(answers, answers2);
    assert_eq!(db.outbox_counts(), (1, 0));
}

#[test]
fn sync_state_text_round_trip() {
    for s in [AnswerSyncState::Pending, AnswerSyncState::Synced, AnswerSyncState::Error] {
        assert_eq!(sync_state_from_str(sync_state_as_str(&s)).unwrap(), s);
    }
    assert_eq!(sync_state_as_str(&AnswerSyncState::Synced), "SYNCED");
    let e = sync_state_from_str("DONE").unwrap_err();
    assert_eq!(e.message(), "Errore storage: stato risposta SQLite non valido: DONE");
}

#[test]
fn outbox_status_text_round_trip() {
    for s in [OutboxStatus::Pending, OutboxStatus::InFlight, OutboxStatus::Error] {
        assert_eq!(outbox_status_from_str(outbox_status_as_str(&s)).unwrap(), s);
    }
    assert_eq!(outbox_status_as_str(&OutboxStatus::InFlight), "IN_FLIGHT");
    assert!(outbox_status_from_str("SENT").is_err());
}

#[test]
fn integer_conversions_for_sqlite() {
    assert_eq!(to_i64(5).unwrap(), 5);
    assert_eq!(to_i64(i64::MAX as u64).unwrap(), i64::MAX);
    assert_eq!(
        to_i64(i64::MAX as u64 + 1).unwrap_err().message(),
        "Errore storage: valore troppo grande per SQLite: 9223372036854775808"
    );
    assert_eq!(to_u64(7, "attempts").unwrap(), 7);
    assert_eq!(to_u64(-1, "attempts").unwrap_err().message(), "Errore storage: valore negativo per attempts: -1");
}

#[test]
fn answer_rows_carry_change_time() {
    let mut db = Database::new("db");
    db.queue_answer("comp-1", &answer("q1", 1, "1"), "r1").unwrap();
    let rows = db.answer_rows();
    assert_eq!(rows.len(), 1);
    assert!(rows[0].updated_at.contains('T'));
}

#[test]
fn schema_version_check() {
    assert!(check_schema_version(None).unwrap());
    assert!(!check_schema_version(Some("1")).unwrap());
    assert!(!check_schema_version(Some("+01")).unwrap());
    assert_eq!(
        check_schema_version(Some("2")).unwrap_err().message(),
        "Errore storage: versione schema SQLite non supportata: 2"
    );
    assert!(check_schema_version(Some(" 1")).is_err());
    assert!(check_schema_version(Some("uno")).is_err());
}

#[test]
fn schema_version_reads_only_a_signed_decimal_integer() {
    assert!(!check_schema_version(Some("0000000000000000000000001")).unwrap());
    assert!(check_schema_version(Some("-1")).is_err());
    assert!(check_schema_version(Some("+")).is_err());
    assert!(check_schema_version(Some("-")).is_err());
    assert!(check_schema_version(Some("")).is_err());
    assert!(check_schema_version(Some("1 ")).is_err());
    assert!(check_schema_version(Some("+-1")).is_err());
    assert!(check_schema_version(Some("\u{661}")).is_err());
    assert!(check_schema_version(Some("18446744073709551617")).is_err());
    assert!(check_schema_version(Some("-9223372036854775808")).is_err());
}

#[test]
fn written_data_reads_back_after_unrelated_operations() {
    let mut db = Database::new("db");
    let c = config();
    let s = ClientSnapshot::from_config(&c);
    db.save_state(&c, &s);
    db.queue_answer("comp-1", &answer("q1", 4, "\"kept\""), "r1").unwrap();
    let q = Questionnaire { questionnaire_id: "qq".to_string(), revision: 1, title: "T".to_string(), questions: Vec::new() };
    db.cache_questionnaire("comp-1", &q).unwrap();
    db.queue_answer("comp-1", &answer("q2", 1, "2"), "r2").unwrap();
    let first = db.pending_outbox(1).pop().unwrap();
    db.mark_outbox_in_flight(first.sequence);
    db.fail_outbox(&first, "x", true).unwrap();
    let other = db.pending_outbox(2);
    let e2 = other.iter().find(|e| e.question_id == "q2").unwrap();
    db.mark_outbox_in_flight(e2.sequence);
    db.acknowledge_outbox(e2, &ack("q2", 1, 9)).unwrap();
    db.cache_questionnaire("comp-2", &q).unwrap();
    db.retry_outbox_errors();
    let answers = db.load_answers("comp-1");
    let q1 = answers.iter().find(|a| a.question_id == "q1").unwrap();
    assert_eq!(q1.client_revision, 4);
    assert_eq!(q1.answer, "\"kept\"");
    assert_eq!(db.load_state().unwrap().0.compilation_id, "comp-1");
    assert_eq!(db.load_cached_questionnaire("comp-1").unwrap().title, "T");
    assert!(db.load_answers("comp-2").is_empty());
}
