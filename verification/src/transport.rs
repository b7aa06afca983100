//! Decisions of the WebSocket transport: the subprotocol check, what the
//! reader does with each frame, how a request's send and reply end, where an
//! incoming message goes, the reconnection schedule, and what connecting,
//! losing the connection and failing to reconnect do to the client.

use vstd::prelude::*;
use vstd::string::*;
use crate::error::{AppError, ErrorView, error_text};
use crate::model::{ClientSnapshot, ClientState};
use crate::session::{ClientCore, attempt_expired, expired_at, recreated, unchanged, with_state};
use crate::clock::utc_now;
use crate::model::fresh_snapshot;
use crate::text::{opt_text, str_debug, str_debug_text};
use crate::protocol::opt_str_text;

verus! {

/// The `Debug` text of an optional string slice.
pub open spec fn option_debug_text(s: Option<Seq<char>>) -> Seq<char> {
    match s {
        Some(t) => "Some("@ + str_debug_text(t) + ")"@,
        None => "None"@,
    }
}

/// The server must select the `mngquest.v1` subprotocol.
pub fn check_subprotocol(selected: Option<&str>) -> (r: Result<(), AppError>)
    ensures
        r is Ok <==> opt_str_text(selected) == Some("mngquest.v1"@),
        r matches Err(e) ==> e@ == ErrorView::Protocol(
            "subprotocol WebSocket inatteso: "@ + option_debug_text(opt_str_text(selected)),
        ),
{
    match selected {
        Some(s) => {
            let same = String::from_str(s) == String::from_str("mngquest.v1");
            if same {
                return Ok(());
            }
            let debug = str_debug(s);
            let text = String::from_str("subprotocol WebSocket inatteso: ").concat("Some(").concat(
                debug.as_str(),
            ).concat(")");
            assert(text@ =~= "subprotocol WebSocket inatteso: "@ + option_debug_text(opt_str_text(selected)));
            Err(AppError::Protocol(text))
        },
        None => Err(
            AppError::Protocol(String::from_str("subprotocol WebSocket inatteso: ").concat("None")),
        ),
    }
}

/// What the WebSocket reader received.
pub enum ReaderEvent {
    /// A text frame.
    Text,
    /// A ping frame.
    Ping,
    /// A close frame, with its `Debug` text.
    Close(String),
    /// Any other frame.
    Other,
    /// Reading failed, with the error's text.
    ReadFailed(String),
    /// The stream ended.
    Ended,
}

/// What the reader does next.
pub enum ReaderAction {
    HandleText,
    Pong,
    Ignore,
    /// The connection is over, for this reason.
    Stop(String),
}

/// The reader's decision for each event.
pub fn reader_step(event: ReaderEvent) -> (action: ReaderAction)
    ensures
        match event {
            ReaderEvent::Text => action is HandleText,
            ReaderEvent::Ping => action is Pong,
            ReaderEvent::Other => action is Ignore,
            ReaderEvent::Close(f) => action matches ReaderAction::Stop(r) && r@ == "close WebSocket: "@ + f@,
            ReaderEvent::ReadFailed(e) => action matches ReaderAction::Stop(r) && r@ == "lettura WebSocket fallita: "@
                + e@,
            ReaderEvent::Ended => action matches ReaderAction::Stop(r) && r@ == "stream WebSocket terminato"@,
        },
{
    match event {
        ReaderEvent::Text => ReaderAction::HandleText,
        ReaderEvent::Ping => ReaderAction::Pong,
        ReaderEvent::Other => ReaderAction::Ignore,
        ReaderEvent::Close(frame) => ReaderAction::Stop(String::from_str("close WebSocket: ").concat(frame.as_str())),
        ReaderEvent::ReadFailed(error) => ReaderAction::Stop(
            String::from_str("lettura WebSocket fallita: ").concat(error.as_str()),
        ),
        ReaderEvent::Ended => ReaderAction::Stop(String::from_str("stream WebSocket terminato")),
    }
}

/// Why answering a ping ended the connection: the writer was gone
/// (`None`), or sending the pong failed with the given error text.
pub fn pong_failure(error: Option<&str>) -> (reason: String)
    ensures
        reason@ == match error {
            None => "writer WebSocket assente"@,
            Some(e) => "invio pong fallito: "@ + e@,
        },
{
    match error {
        None => String::from_str("writer WebSocket assente"),
        Some(e) => String::from_str("invio pong fallito: ").concat(e),
    }
}

/// The request identifier of an incoming response, if the message is one.
pub fn response_request_id(message_type: Option<&str>, request_id: Option<&str>) -> (r: Option<String>)
    ensures
        match r {
            Some(id) => (message_type matches Some(t) && t@ == "response"@) && (request_id matches Some(i)
                && id@ == i@),
            None => !((message_type matches Some(t) && t@ == "response"@) && request_id is Some),
        },
{
    match message_type {
        Some(t) => {
            if String::from_str(t) == String::from_str("response") {
                match request_id {
                    Some(i) => Some(String::from_str(i)),
                    None => None,
                }
            } else {
                None
            }
        },
        None => None,
    }
}

/// Where a message that no pending request takes goes.
pub enum Incoming {
    /// The `server-event` channel.
    Event,
    /// The `server-message` channel.
    Message,
}

/// Server events go to the event channel, everything else to the message
/// channel.
pub fn incoming_kind(message_type: Option<&str>) -> (kind: Incoming)
    ensures
        kind is Event <==> (message_type matches Some(t) && t@ == "event"@),
{
    match message_type {
        Some(t) => {
            if String::from_str(t) == String::from_str("event") {
                Incoming::Event
            } else {
                Incoming::Message
            }
        },
        None => Incoming::Message,
    }
}

/// How writing a request frame ended.
pub enum WriteOutcome {
    Written,
    /// No connection to write to.
    NoWriter,
    /// Writing failed, with the error's text.
    Failed(String),
    /// Writing took longer than the request timeout.
    TimedOut,
}

/// The result of writing the frame of the request `request_id`.
pub fn write_result(outcome: WriteOutcome, request_id: &str) -> (r: Result<(), AppError>)
    ensures
        match outcome {
            WriteOutcome::Written => r is Ok,
            WriteOutcome::NoWriter => r matches Err(e) && e@ == ErrorView::Disconnected,
            WriteOutcome::Failed(d) => r matches Err(e) && e@ == ErrorView::Protocol(
                "scrittura WebSocket fallita: "@ + d@,
            ),
            WriteOutcome::TimedOut => r matches Err(e) && e@ == ErrorView::Timeout("send:"@ + request_id@),
        },
{
    match outcome {
        WriteOutcome::Written => Ok(()),
        WriteOutcome::NoWriter => Err(AppError::Disconnected),
        WriteOutcome::Failed(detail) => Err(
            AppError::Protocol(String::from_str("scrittura WebSocket fallita: ").concat(detail.as_str())),
        ),
        WriteOutcome::TimedOut => Err(AppError::Timeout(String::from_str("send:").concat(request_id))),
    }
}

/// How waiting for the reply to a request ended.
pub enum ReplyOutcome {
    Delivered,
    /// The connection ended first, for this reason.
    Failed(String),
    /// The reply channel was dropped.
    Dropped,
    /// No reply within the request timeout.
    TimedOut,
}

/// The result of waiting for the reply to the request `request_id`.
pub fn reply_result(outcome: ReplyOutcome, request_id: &str) -> (r: Result<(), AppError>)
    ensures
        match outcome {
            ReplyOutcome::Delivered => r is Ok,
            ReplyOutcome::Failed(m) => r matches Err(e) && e@ == ErrorView::Protocol(m@),
            ReplyOutcome::Dropped => r matches Err(e) && e@ == ErrorView::Disconnected,
            ReplyOutcome::TimedOut => r matches Err(e) && e@ == ErrorView::Timeout(request_id@),
        },
{
    match outcome {
        ReplyOutcome::Delivered => Ok(()),
        ReplyOutcome::Failed(message) => Err(AppError::Protocol(message)),
        ReplyOutcome::Dropped => Err(AppError::Disconnected),
        ReplyOutcome::TimedOut => Err(AppError::Timeout(String::from_str(request_id))),
    }
}

/// The pause before reconnection attempt `attempt`: 1, 2, 4, 8 and 15
/// seconds, then 30.
pub open spec fn backoff_seconds(attempt: u32) -> u64 {
    if attempt == 1 {
        1
    } else if attempt == 2 {
        2
    } else if attempt == 3 {
        4
    } else if attempt == 4 {
        8
    } else if attempt == 5 {
        15
    } else {
        30
    }
}

/// The pause before reconnection attempt `attempt`, in seconds.
pub fn reconnect_delay_seconds(attempt: u32) -> (seconds: u64)
    ensures
        seconds == backoff_seconds(attempt),
{
    match attempt {
        1 => 1,
        2 => 2,
        3 => 4,
        4 => 8,
        5 => 15,
        _ => 30,
    }
}

/// The number of the next reconnection attempt, counted up to `u32::MAX`.
pub fn next_reconnect_attempt(attempt: u32) -> (next: u32)
    ensures
        next == if attempt < u32::MAX {
            attempt + 1
        } else {
            attempt as int
        },
{
    if attempt < u32::MAX {
        attempt + 1
    } else {
        attempt
    }
}

/// The connection came up: an offline attempt with a token runs again, a
/// submitted one stays submitted, anything else is connected.
pub open spec fn transport_up(s: ClientSnapshot, token_loaded: bool) -> ClientSnapshot {
    ClientSnapshot {
        websocket_connected: true,
        state: if s.state == ClientState::Offline && token_loaded {
            ClientState::Running
        } else if s.state == ClientState::Submitted {
            ClientState::Submitted
        } else {
            ClientState::Connected
        },
        last_error: None,
        ..s
    }
}

/// The state after the connection was lost: an attempt under way is
/// offline, a submitted one stays submitted, anything else is disconnected.
pub open spec fn state_after_loss(state: ClientState) -> ClientState {
    match state {
        ClientState::Running | ClientState::Starting | ClientState::Submitting => ClientState::Offline,
        ClientState::Submitted => ClientState::Submitted,
        _ => ClientState::Disconnected,
    }
}

/// What the reconnection loop does next.
#[derive(Debug, PartialEq, Eq, Structural)]
pub enum ReconnectStep {
    /// Stop trying.
    Stop,
    /// The attempt expired while offline and was cleared; stop trying.
    Expired,
    /// Wait `seconds`, then make reconnection attempt number `attempt`.
    Wait { attempt: u32, seconds: u64 },
}

impl ClientCore {
    /// The WebSocket connected; the state is stored.
    pub fn transport_connected(&mut self)
        requires
            old(self).db.wf(),
        ensures
            final(self).db.wf(),
            final(self).snapshot == transport_up(old(self).snapshot, old(self).access_token is Some),
            final(self).config == old(self).config,
            final(self).access_token == old(self).access_token,
            final(self).answers@ == old(self).answers@,
            final(self).db@ == with_state(old(self).db@, final(self).config, final(self).snapshot),
    {
        let token_loaded = self.access_token.is_some();
        self.snapshot.websocket_connected = true;
        self.snapshot.state = if self.snapshot.state == ClientState::Offline && token_loaded {
            ClientState::Running
        } else if self.snapshot.state == ClientState::Submitted {
            ClientState::Submitted
        } else {
            ClientState::Connected
        };
        self.snapshot.last_error = None;
        self.persist();
    }

    /// The WebSocket closed for `reason`; the state is stored.
    pub fn transport_lost(&mut self, reason: &str)
        requires
            old(self).db.wf(),
        ensures
            final(self).db.wf(),
            final(self).snapshot == (ClientSnapshot {
                websocket_connected: false,
                state: state_after_loss(old(self).snapshot.state),
                last_error: final(self).snapshot.last_error,
                ..old(self).snapshot
            }),
            opt_text(final(self).snapshot.last_error) == Some(reason@),
            final(self).config == old(self).config,
            final(self).access_token == old(self).access_token,
            final(self).answers@ == old(self).answers@,
            final(self).db@ == with_state(old(self).db@, final(self).config, final(self).snapshot),
    {
        self.snapshot.websocket_connected = false;
        self.snapshot.last_error = Some(String::from_str(reason));
        self.snapshot.state = match self.snapshot.state {
            ClientState::Running | ClientState::Starting | ClientState::Submitting => ClientState::Offline,
            ClientState::Submitted => ClientState::Submitted,
            _ => ClientState::Disconnected,
        };
        self.persist();
    }

    /// A reconnection attempt failed with `error`: the client is offline,
    /// showing the failure; the state is stored.
    pub fn reconnect_failed(&mut self, error: &AppError)
        requires
            old(self).db.wf(),
        ensures
            final(self).db.wf(),
            final(self).snapshot == (ClientSnapshot {
                websocket_connected: false,
                state: ClientState::Offline,
                last_error: final(self).snapshot.last_error,
                ..old(self).snapshot
            }),
            opt_text(final(self).snapshot.last_error) == Some("riconnessione WebSocket fallita: "@ + error_text(error@)),
            final(self).config == old(self).config,
            final(self).access_token == old(self).access_token,
            final(self).answers@ == old(self).answers@,
            final(self).db@ == with_state(old(self).db@, final(self).config, final(self).snapshot),
    {
        self.snapshot.websocket_connected = false;
        self.snapshot.state = ClientState::Offline;
        self.snapshot.last_error = Some(
            String::from_str("riconnessione WebSocket fallita: ").concat(error.message().as_str()),
        );
        self.persist();
    }

    /// Whether to keep trying to reconnect: only an offline attempt that
    /// still has its token.
    pub fn reconnect_wanted(&self) -> (r: bool)
        ensures
            r == (self.snapshot.state == ClientState::Offline && self.access_token is Some),
    {
        if self.snapshot.state == ClientState::Submitted {
            return false;
        }
        self.snapshot.state == ClientState::Offline && self.access_token.is_some()
    }

    /// If the attempt has expired at the instant `now`, it starts over from
    /// the configuration: the store is recreated with only the fresh state
    /// and the answers are dropped. Returns whether it had expired.
    pub fn clear_expired_attempt_at(&mut self, now: (i64, u32)) -> (expired: bool)
        requires
            old(self).db.wf(),
        ensures
            final(self).db.wf(),
            final(self).config == old(self).config,
            final(self).access_token == old(self).access_token,
            expired == attempt_expired(old(self).snapshot, now),
            expired ==> {
                &&& final(self).snapshot == fresh_snapshot(old(self).config)
                &&& final(self).db@ == recreated(old(self).db@, final(self).config, final(self).snapshot)
                &&& final(self).answers@.len() == 0
            },
            !expired ==> unchanged(*old(self), *final(self)),
    {
        if expired_at(&self.snapshot, now) {
            self.snapshot = ClientSnapshot::from_config(&self.config);
            self.db.recreate_with_state(&self.config, &self.snapshot);
            self.answers = Vec::new();
            true
        } else {
            false
        }
    }

    /// `clear_expired_attempt_at` at the current instant of the system
    /// clock: the outcome is that of some instant.
    pub fn clear_expired_attempt(&mut self) -> (expired: bool)
        requires
            old(self).db.wf(),
        ensures
            final(self).db.wf(),
            final(self).config == old(self).config,
            final(self).access_token == old(self).access_token,
            exists|now: (i64, u32)| expired == attempt_expired(old(self).snapshot, now),
            expired ==> {
                &&& final(self).snapshot == fresh_snapshot(old(self).config)
                &&& final(self).db@ == recreated(old(self).db@, final(self).config, final(self).snapshot)
                &&& final(self).answers@.len() == 0
            },
            !expired ==> unchanged(*old(self), *final(self)),
    {
        let now = utc_now();
        self.clear_expired_attempt_at(now)
    }

    /// One turn of the reconnection loop at the instant `now`, after
    /// `attempt` reconnection attempts: with automatic reconnection switched
    /// off it stops; an attempt that expired while offline is cleared
    /// (`clear_expired_attempt_at`) and the loop ends; it also ends unless
    /// the attempt is offline with a token; otherwise the next attempt is
    /// counted and the loop waits its pause before connecting.
    pub fn reconnect_step_at(&mut self, auto_reconnect: bool, attempt: u32, now: (i64, u32)) -> (step: ReconnectStep)
        requires
            old(self).db.wf(),
        ensures
            final(self).db.wf(),
            final(self).config == old(self).config,
            final(self).access_token == old(self).access_token,
            !auto_reconnect ==> step is Stop && unchanged(*old(self), *final(self)),
            auto_reconnect && attempt_expired(old(self).snapshot, now) ==> {
                &&& step is Expired
                &&& final(self).snapshot == fresh_snapshot(old(self).config)
                &&& final(self).db@ == recreated(old(self).db@, final(self).config, final(self).snapshot)
                &&& final(self).answers@.len() == 0
            },
            auto_reconnect && !attempt_expired(old(self).snapshot, now) ==> {
                &&& unchanged(*old(self), *final(self))
                &&& if old(self).snapshot.state == ClientState::Offline && old(self).access_token is Some {
                    let next = if attempt < u32::MAX {
                        (attempt + 1) as u32
                    } else {
                        attempt
                    };
                    step == ReconnectStep::Wait { attempt: next, seconds: backoff_seconds(next) }
                } else {
                    step is Stop
                }
            },
    {
        if !auto_reconnect {
            return ReconnectStep::Stop;
        }
        if self.clear_expired_attempt_at(now) {
            return ReconnectStep::Expired;
        }
        if !self.reconnect_wanted() {
            return ReconnectStep::Stop;
        }
        let next = next_reconnect_attempt(attempt);
        ReconnectStep::Wait { attempt: next, seconds: reconnect_delay_seconds(next) }
    }

    /// `reconnect_step_at` at the current instant of the system clock.
    pub fn reconnect_step(&mut self, auto_reconnect: bool, attempt: u32) -> (step: ReconnectStep)
        requires
            old(self).db.wf(),
        ensures
            final(self).db.wf(),
            final(self).config == old(self).config,
            final(self).access_token == old(self).access_token,
            !auto_reconnect ==> step is Stop && unchanged(*old(self), *final(self)),
            auto_reconnect ==> exists|now: (i64, u32)| {
                &&& (attempt_expired(old(self).snapshot, now) ==> {
                    &&& step is Expired
                    &&& final(self).snapshot == fresh_snapshot(old(self).config)
                    &&& final(self).db@ == recreated(old(self).db@, final(self).config, final(self).snapshot)
                    &&& final(self).answers@.len() == 0
                })
                &&& (!attempt_expired(old(self).snapshot, now) ==> {
                    &&& unchanged(*old(self), *final(self))
                    &&& if old(self).snapshot.state == ClientState::Offline && old(self).access_token is Some {
                        let next = if attempt < u32::MAX {
                            (attempt + 1) as u32
                        } else {
                            attempt
                        };
                        step == ReconnectStep::Wait { attempt: next, seconds: backoff_seconds(next) }
                    } else {
                        step is Stop
                    }
                })
            },
    {
        let now = utc_now();
        self.reconnect_step_at(auto_reconnect, attempt, now)
    }

    /// How a reconnection attempt ended: connected, the loop ends; failed,
    /// the client is offline showing the failure (`reconnect_failed`) and
    /// the loop goes on. Returns whether it goes on.
    pub fn reconnect_result(&mut self, outcome: Result<(), AppError>) -> (again: bool)
        requires
            old(self).db.wf(),
        ensures
            final(self).db.wf(),
            final(self).config == old(self).config,
            final(self).access_token == old(self).access_token,
            final(self).answers@ == old(self).answers@,
            match outcome {
                Ok(()) => !again && unchanged(*old(self), *final(self)),
                Err(e) => again && final(self).snapshot == (ClientSnapshot {
                    websocket_connected: false,
                    state: ClientState::Offline,
                    last_error: final(self).snapshot.last_error,
                    ..old(self).snapshot
                }) && opt_text(final(self).snapshot.last_error) == Some(
                    "riconnessione WebSocket fallita: "@ + error_text(e@),
                ) && final(self).db@ == with_state(old(self).db@, final(self).config, final(self).snapshot),
            },
    {
        match outcome {
            Ok(()) => false,
            Err(error) => {
                self.reconnect_failed(&error);
                true
            },
        }
    }

    /// The bearer token for an authenticated command.
    pub fn bearer_token(&self) -> (r: Result<String, AppError>)
        ensures
            match r {
                Ok(t) => self.access_token == Some(t),
                Err(e) => self.access_token is None && e@ == ErrorView::InvalidState("token JWT assente"@),
            },
    {
        match &self.access_token {
            Some(t) => Ok(t.clone()),
            None => Err(AppError::InvalidState(String::from_str("token JWT assente"))),
        }
    }
}

} // verus!
