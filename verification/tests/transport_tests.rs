use quaestio_client::error::AppError;
use quaestio_client::model::{ClientConfig, ClientState};
use quaestio_client::session::ClientCore;
use quaestio_client::store::Database;
use quaestio_client::transport::{
    check_subprotocol, incoming_kind, next_reconnect_attempt, pong_failure, reader_step, reconnect_delay_seconds,
    reply_result, response_request_id, write_result, Incoming, ReaderAction, ReaderEvent, ReconnectStep, ReplyOutcome,
    WriteOutcome,
};

fn client(token: Option<&str>) -> ClientCore {
    ClientCore::open_at(
        Database::new("db"),
        ClientConfig::from_env_values(None, None, None, None),
        None,
        token.map(|t| t.to_string()),
        (1_700_000_000, 0),
    )
    .unwrap()
    .0
}

#[test]
fn subprotocol_must_be_mngquest_v1() {
    assert!(check_subprotocol(Some("mngquest.v1")).is_ok());
    assert_eq!(
        check_subprotocol(Some("other\"v")).unwrap_err().message(),
        "Errore protocollo: subprotocol WebSocket inatteso: Some(\"other\\\"v\")"
    );
    assert_eq!(
        check_subprotocol(None).unwrap_err().message(),
        "Errore protocollo: subprotocol WebSocket inatteso: None"
    );
}

#[test]
fn reader_decisions() {
    assert!(matches!(reader_step(ReaderEvent::Text), ReaderAction::HandleText));
    assert!(matches!(reader_step(ReaderEvent::Ping), ReaderAction::Pong));
    assert!(matches!(reader_step(ReaderEvent::Other), ReaderAction::Ignore));
    match reader_step(ReaderEvent::Close("None".to_string())) {
        ReaderAction::Stop(r) => assert_eq!(r, "close WebSocket: None"),
        _ => panic!("a close frame stops the reader"),
    }
    match reader_step(ReaderEvent::ReadFailed("reset".to_string())) {
        ReaderAction::Stop(r) => assert_eq!(r, "lettura WebSocket fallita: reset"),
        _ => panic!("a read failure stops the reader"),
    }
    match reader_step(ReaderEvent::Ended) {
        ReaderAction::Stop(r) => assert_eq!(r, "stream WebSocket terminato"),
        _ => panic!("the end of the stream stops the reader"),
    }
    assert_eq!(pong_failure(None), "writer WebSocket assente");
    assert_eq!(pong_failure(Some("broken pipe")), "invio pong fallito: broken pipe");
}

#[test]
fn routing_of_incoming_messages() {
    assert_eq!(response_request_id(Some("response"), Some("r1")).as_deref(), Some("r1"));
    assert!(response_request_id(Some("response"), None).is_none());
    assert!(response_request_id(Some("event"), Some("r1")).is_none());
    assert!(response_request_id(None, Some("r1")).is_none());
    assert!(matches!(incoming_kind(Some("event")), Incoming::Event));
    assert!(matches!(incoming_kind(Some("response")), Incoming::Message));
    assert!(matches!(incoming_kind(None), Incoming::Message));
}

#[test]
fn request_write_and_reply_outcomes() {
    assert!(write_result(WriteOutcome::Written, "r1").is_ok());
    assert!(matches!(write_result(WriteOutcome::NoWriter, "r1"), Err(AppError::Disconnected)));
    assert_eq!(
        write_result(WriteOutcome::Failed("io".to_string()), "r1").unwrap_err().message(),
        "Errore protocollo: scrittura WebSocket fallita: io"
    );
    assert_eq!(
        write_result(WriteOutcome::TimedOut, "r1").unwrap_err().message(),
        "Timeout della richiesta send:r1"
    );
    assert!(reply_result(ReplyOutcome::Delivered, "r1").is_ok());
    assert_eq!(
        reply_result(ReplyOutcome::Failed("stream WebSocket terminato".to_string()), "r1").unwrap_err().message(),
        "Errore protocollo: stream WebSocket terminato"
    );
    assert!(matches!(reply_result(ReplyOutcome::Dropped, "r1"), Err(AppError::Disconnected)));
    let e = reply_result(ReplyOutcome::TimedOut, "r1").unwrap_err();
    assert_eq!(e.message(), "Timeout della richiesta r1");
    assert!(e.is_retryable());
}

#[test]
fn reconnection_schedule() {
    let delays: Vec<u64> = (1..=8).map(reconnect_delay_seconds).collect();
    assert_eq!(delays, vec![1, 2, 4, 8, 15, 30, 30, 30]);
    assert_eq!(reconnect_delay_seconds(u32::MAX), 30);
    assert_eq!(next_reconnect_attempt(0), 1);
    assert_eq!(next_reconnect_attempt(u32::MAX), u32::MAX);
}

#[test]
fn connecting_resumes_an_offline_attempt_with_token() {
    let mut c = client(Some("jwt"));
    c.snapshot.state = ClientState::Offline;
    c.snapshot.last_error = Some("old".to_string());
    c.transport_connected();
    assert_eq!(c.snapshot.state, ClientState::Running);
    assert!(c.snapshot.websocket_connected);
    assert!(c.snapshot.last_error.is_none());
    assert!(c.db.load_state().unwrap().1.websocket_connected);
    let mut c = client(None);
    c.snapshot.state = ClientState::Offline;
    c.transport_connected();
    assert_eq!(c.snapshot.state, ClientState::Connected);
    c.snapshot.state = ClientState::Submitted;
    c.transport_connected();
    assert_eq!(c.snapshot.state, ClientState::Submitted);
}

#[test]
fn losing_the_connection() {
    let mut c = client(Some("jwt"));
    c.snapshot.websocket_connected = true;
    c.snapshot.state = ClientState::Running;
    c.transport_lost("stream WebSocket terminato");
    assert_eq!(c.snapshot.state, ClientState::Offline);
    assert!(!c.snapshot.websocket_connected);
    assert_eq!(c.snapshot.last_error.as_deref(), Some("stream WebSocket terminato"));
    assert!(c.reconnect_wanted());
    c.snapshot.state = ClientState::Connected;
    c.transport_lost("x");
    assert_eq!(c.snapshot.state, ClientState::Disconnected);
    assert!(!c.reconnect_wanted());
    c.snapshot.state = ClientState::Submitted;
    c.transport_lost("x");
    assert_eq!(c.snapshot.state, ClientState::Submitted);
}

#[test]
fn failed_reconnection_stays_offline() {
    let mut c = client(Some("jwt"));
    c.snapshot.state = ClientState::Running;
    c.reconnect_failed(&AppError::Protocol("connessione WebSocket fallita: refused".to_string()));
    assert_eq!(c.snapshot.state, ClientState::Offline);
    assert_eq!(
        c.snapshot.last_error.as_deref(),
        Some("riconnessione WebSocket fallita: Errore protocollo: connessione WebSocket fallita: refused")
    );
    assert_eq!(c.db.load_state().unwrap().1.state, ClientState::Offline);
}

#[test]
fn reconnecting_only_with_offline_attempt_and_token() {
    let mut c = client(None);
    c.snapshot.state = ClientState::Offline;
    assert!(!c.reconnect_wanted());
    c.access_token = Some("t".to_string());
    assert!(c.reconnect_wanted());
    c.snapshot.state = ClientState::Submitted;
    assert!(!c.reconnect_wanted());
}

#[test]
fn expired_attempt_is_cleared_while_offline() {
    let mut c = client(Some("jwt"));
    c.snapshot.state = ClientState::Offline;
    c.snapshot.expires_at = Some("2001-01-01T00:00:00Z".to_string());
    assert!(c.clear_expired_attempt());
    assert_eq!(c.snapshot.state, ClientState::Disconnected);
    assert!(c.snapshot.expires_at.is_none());
    let mut c = client(Some("jwt"));
    c.snapshot.state = ClientState::Offline;
    c.snapshot.expires_at = Some("2999-01-01T00:00:00Z".to_string());
    assert!(!c.clear_expired_attempt());
    assert_eq!(c.snapshot.state, ClientState::Offline);
}

#[test]
fn bearer_token_required_for_commands() {
    let c = client(None);
    assert_eq!(
        c.bearer_token().unwrap_err().message(),
        "Transizione di stato non valida: token JWT assente"
    );
    let c = client(Some("jwt"));
    assert_eq!(c.bearer_token().unwrap(), "jwt");
}

#[test]
fn expiry_at_a_given_instant() {
    let mut c = client(Some("jwt"));
    c.snapshot.state = ClientState::Offline;
    c.snapshot.expires_at = Some("2023-11-14T22:13:20Z".to_string());
    assert!(!c.clear_expired_attempt_at((1_699_999_999, 0)));
    assert_eq!(c.snapshot.state, ClientState::Offline);
    assert!(c.clear_expired_attempt_at((1_700_000_000, 0)));
    assert_eq!(c.snapshot.state, ClientState::Disconnected);
}

#[test]
fn reconnection_loop_steps() {
    let mut c = client(Some("jwt"));
    c.snapshot.state = ClientState::Offline;
    c.snapshot.expires_at = Some("2023-11-14T22:13:20Z".to_string());
    assert_eq!(c.reconnect_step_at(false, 0, (0, 0)), ReconnectStep::Stop);
    assert_eq!(c.reconnect_step_at(true, 0, (0, 0)), ReconnectStep::Wait { attempt: 1, seconds: 1 });
    assert_eq!(c.reconnect_step_at(true, 5, (0, 0)), ReconnectStep::Wait { attempt: 6, seconds: 30 });
    assert_eq!(c.reconnect_step_at(true, u32::MAX, (0, 0)), ReconnectStep::Wait { attempt: u32::MAX, seconds: 30 });
    c.snapshot.state = ClientState::Submitted;
    assert_eq!(c.reconnect_step_at(true, 0, (2_000_000_000, 0)), ReconnectStep::Stop);
    c.snapshot.state = ClientState::Offline;
    assert_eq!(c.reconnect_step_at(true, 3, (2_000_000_000, 0)), ReconnectStep::Expired);
    assert_eq!(c.snapshot.state, ClientState::Disconnected);
    assert_eq!(c.reconnect_step_at(true, 0, (0, 0)), ReconnectStep::Stop);
}

#[test]
fn reconnection_outcomes() {
    let mut c = client(Some("jwt"));
    c.snapshot.state = ClientState::Offline;
    assert!(!c.reconnect_result(Ok(())));
    assert_eq!(c.snapshot.state, ClientState::Offline);
    assert!(c.reconnect_result(Err(AppError::Disconnected)));
    assert_eq!(c.snapshot.last_error.as_deref(), Some("riconnessione WebSocket fallita: WebSocket non connesso"));
}
