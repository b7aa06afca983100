use quaestio_client::error::AppError;
use quaestio_client::model::SaveAnswerResult;
use quaestio_client::protocol::{
    activation_data, compilation_data, decode_response, new_request, request_envelope, save_answer_data,
    start_data, AttemptOutcome, CommandAttempts, CommandError, CommandResponse,
};

fn response(request_id: &str, cmd: &str, ok: bool, data: Option<u64>, error: Option<CommandError>) -> CommandResponse<u64> {
    CommandResponse {
        version: "1.0".to_string(),
        message_type: "response".to_string(),
        request_id: request_id.to_string(),
        cmd: cmd.to_string(),
        ok,
        data,
        error,
    }
}

#[test]
fn save_answer_data_is_canonical_json() {
    assert_eq!(
        save_answer_data("c1", "q1", 12, "{\"a\":[1,2]}"),
        "{\"answer\":{\"a\":[1,2]},\"client_revision\":12,\"compilazione_id\":\"c1\",\"domanda_id\":\"q1\"}"
    );
}

#[test]
fn json_strings_are_escaped() {
    assert_eq!(compilation_data("a\"b\\c"), "{\"compilazione_id\":\"a\\\"b\\\\c\"}");
    assert_eq!(compilation_data("x\ny\tz"), "{\"compilazione_id\":\"x\\ny\\tz\"}");
    assert_eq!(compilation_data("\u{1}\u{8}\u{c}\r"), "{\"compilazione_id\":\"\\u0001\\b\\f\\r\"}");
    assert_eq!(compilation_data("è→\u{7f}"), "{\"compilazione_id\":\"è→\u{7f}\"}");
}

#[test]
fn activation_and_start_data() {
    assert_eq!(
        activation_data("mario", "p\"w", "s1", "i1", "c1"),
        "{\"compilazione_id\":\"c1\",\"installation_id\":\"i1\",\"password\":\"p\\\"w\",\"sessione_id\":\"s1\",\"username\":\"mario\"}"
    );
    assert_eq!(
        start_data("s1", "i1", "c1"),
        "{\"compilazione_id\":\"c1\",\"installation_id\":\"i1\",\"sessione_id\":\"s1\"}"
    );
}

#[test]
fn envelope_with_and_without_token() {
    assert_eq!(
        request_envelope("r1", "compilazione.read", Some("tok"), "{}"),
        "{\"auth\":{\"token\":\"tok\"},\"cmd\":\"compilazione.read\",\"data\":{},\"request_id\":\"r1\",\"type\":\"request\",\"version\":\"1.0\"}"
    );
    assert_eq!(
        request_envelope("r2", "auth.activate", None, "{\"x\":1}"),
        "{\"cmd\":\"auth.activate\",\"data\":{\"x\":1},\"request_id\":\"r2\",\"type\":\"request\",\"version\":\"1.0\"}"
    );
}

#[test]
fn new_request_uses_fresh_version_4_identifier() {
    let (id, envelope) = new_request("compilazione.submit", Some("t"), "{}");
    assert_eq!(id.len(), 36);
    let chars: Vec<char> = id.chars().collect();
    for (i, c) in chars.iter().enumerate() {
        if i == 8 || i == 13 || i == 18 || i == 23 {
            assert_eq!(*c, '-');
        } else {
            assert!(c.is_ascii_hexdigit() && !c.is_ascii_uppercase());
        }
    }
    assert_eq!(chars[14], '4');
    assert!(matches!(chars[19], '8' | '9' | 'a' | 'b'));
    assert_eq!(envelope, request_envelope(&id, "compilazione.submit", Some("t"), "{}"));
    let (other, _) = new_request("compilazione.submit", None, "{}");
    assert_ne!(id, other);
}

#[test]
fn decode_accepts_matching_success() {
    assert_eq!(decode_response(response("r1", "c", true, Some(5), None), "r1", "c").unwrap(), 5);
}

#[test]
fn decode_rejects_wrong_envelope() {
    let mut r = response("r1", "c", true, Some(5), None);
    r.version = "2.0".to_string();
    assert_eq!(decode_response(r, "r1", "c").unwrap_err().message(), "Errore protocollo: envelope di risposta non valido");
    let mut r = response("r1", "c", true, Some(5), None);
    r.message_type = "event".to_string();
    assert!(matches!(decode_response(r, "r1", "c"), Err(AppError::Protocol(_))));
}

#[test]
fn decode_rejects_other_request_or_command() {
    let e = decode_response(response("r9", "c", true, Some(5), None), "r1", "c").unwrap_err();
    assert_eq!(e.message(), "Errore protocollo: request_id inatteso: r9");
    let e = decode_response(response("r1", "d", true, Some(5), None), "r1", "c").unwrap_err();
    assert_eq!(e.message(), "Errore protocollo: cmd inatteso: d");
}

#[test]
fn decode_reports_server_errors() {
    let err = CommandError { code: "BUSY".to_string(), message: "riprova".to_string(), retryable: true };
    let e = decode_response(response("r1", "c", false, None, Some(err)), "r1", "c").unwrap_err();
    assert_eq!(e.message(), "Errore server BUSY: riprova");
    assert!(e.is_retryable());
    let e = decode_response(response("r1", "c", false, None, None), "r1", "c").unwrap_err();
    assert!(matches!(&e, AppError::Server { code, retryable: false, .. } if code == "UNKNOWN_ERROR"));
    assert_eq!(e.message(), "Errore server UNKNOWN_ERROR: errore server senza descrizione");
    assert!(!e.is_retryable());
}

#[test]
fn decode_requires_data() {
    let e = decode_response(response("r1", "c", true, None, None), "r1", "c").unwrap_err();
    assert_eq!(e.message(), "Errore protocollo: data assente nella risposta");
}

#[test]
fn decode_typed_save_answer_result() {
    let r = CommandResponse {
        version: "1.0".to_string(),
        message_type: "response".to_string(),
        request_id: "r".to_string(),
        cmd: "compilazione.save-answer".to_string(),
        ok: true,
        data: Some(SaveAnswerResult {
            question_id: "q".to_string(),
            client_revision: 1,
            server_revision: 2,
            idempotent: true,
        }),
        error: None,
    };
    let d = decode_response(r, "r", "compilazione.save-answer").unwrap();
    assert_eq!(d.server_revision, 2);
}

#[test]
fn transport_failures_are_retried_until_attempts_run_out() {
    let mut a = CommandAttempts::new("r1".to_string(), "{\"cmd\":\"x\"}".to_string(), 2);
    assert_eq!((a.total(), a.attempt()), (2, 1));
    assert!(matches!(a.record_failure(AppError::Timeout("r1".to_string())), AttemptOutcome::Retry));
    assert_eq!(a.attempt(), 2);
    assert_eq!(a.request_id(), "r1");
    assert_eq!(a.envelope(), "{\"cmd\":\"x\"}");
    match a.record_failure(AppError::Disconnected) {
        AttemptOutcome::Fail(AppError::Disconnected) => {}
        _ => panic!("the last transport failure is returned"),
    }
    assert_eq!(a.envelope(), "{\"cmd\":\"x\"}");
}

#[test]
fn other_failures_are_not_retried() {
    let mut a = CommandAttempts::new("r".to_string(), "e".to_string(), 3);
    match a.record_failure(AppError::Protocol("x".to_string())) {
        AttemptOutcome::Fail(AppError::Protocol(t)) => assert_eq!(t, "x"),
        _ => panic!("a protocol error ends the command"),
    }
    assert_eq!(a.attempt(), 1);
}

#[test]
fn zero_attempts_still_sends_once() {
    let mut a = CommandAttempts::new("r".to_string(), "e".to_string(), 0);
    assert_eq!(a.total(), 1);
    assert!(matches!(a.record_failure(AppError::Disconnected), AttemptOutcome::Fail(_)));
}
