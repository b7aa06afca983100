//! The canonical JSON envelopes exchanged with the server over the
//! `mngquest.v1` WebSocket subprotocol. Objects are written compactly with
//! their keys in ascending order.

use vstd::prelude::*;
use vstd::string::*;
use crate::clock::{new_request_id, uuid_v4_text};
use crate::error::{AppError, ErrorView};
use crate::text::{decimal, decimal_text, json_quoted, json_string_literal};

verus! {

/// The data of a `compilazione.save-answer` request.
pub open spec fn save_answer_data_text(
    compilation_id: Seq<char>,
    question_id: Seq<char>,
    client_revision: u64,
    answer: Seq<char>,
) -> Seq<char> {
    "{\"answer\":"@ + answer + ",\"client_revision\":"@ + decimal_text(client_revision as nat)
        + ",\"compilazione_id\":"@ + json_quoted(compilation_id) + ",\"domanda_id\":"@
        + json_quoted(question_id) + "}"@
}

/// The data of a `compilazione.save-answer` request; `answer` is the answer's
/// JSON text.
pub fn save_answer_data(
    compilation_id: &str,
    question_id: &str,
    client_revision: u64,
    answer: &str,
) -> (text: String)
    ensures
        text@ == save_answer_data_text(compilation_id@, question_id@, client_revision, answer@),
{
    let mut text = String::from_str("{\"answer\":");
    text.append(answer);
    text.append(",\"client_revision\":");
    text.append(decimal(client_revision).as_str());
    text.append(",\"compilazione_id\":");
    text.append(json_string_literal(compilation_id).as_str());
    text.append(",\"domanda_id\":");
    text.append(json_string_literal(question_id).as_str());
    text.append("}");
    text
}

/// The data of an `auth.activate` request.
pub open spec fn activation_data_text(
    username: Seq<char>,
    password: Seq<char>,
    session_id: Seq<char>,
    installation_id: Seq<char>,
    compilation_id: Seq<char>,
) -> Seq<char> {
    "{\"compilazione_id\":"@ + json_quoted(compilation_id) + ",\"installation_id\":"@
        + json_quoted(installation_id) + ",\"password\":"@ + json_quoted(password)
        + ",\"sessione_id\":"@ + json_quoted(session_id) + ",\"username\":"@ + json_quoted(
        username,
    ) + "}"@
}

/// The data of an `auth.activate` request.
pub fn activation_data(
    username: &str,
    password: &str,
    session_id: &str,
    installation_id: &str,
    compilation_id: &str,
) -> (text: String)
    ensures
        text@ == activation_data_text(
            username@,
            password@,
            session_id@,
            installation_id@,
            compilation_id@,
        ),
{
    let mut text = String::from_str("{\"compilazione_id\":");
    text.append(json_string_literal(compilation_id).as_str());
    text.append(",\"installation_id\":");
    text.append(json_string_literal(installation_id).as_str());
    text.append(",\"password\":");
    text.append(json_string_literal(password).as_str());
    text.append(",\"sessione_id\":");
    text.append(json_string_literal(session_id).as_str());
    text.append(",\"username\":");
    text.append(json_string_literal(username).as_str());
    text.append("}");
    text
}

/// The data of a `compilazione.start` request.
pub open spec fn start_data_text(
    session_id: Seq<char>,
    installation_id: Seq<char>,
    compilation_id: Seq<char>,
) -> Seq<char> {
    "{\"compilazione_id\":"@ + json_quoted(compilation_id) + ",\"installation_id\":"@
        + json_quoted(installation_id) + ",\"sessione_id\":"@ + json_quoted(session_id) + "}"@
}

/// The data of a `compilazione.start` request.
pub fn start_data(session_id: &str, installation_id: &str, compilation_id: &str) -> (text: String)
    ensures
        text@ == start_data_text(session_id@, installation_id@, compilation_id@),
{
    let mut text = String::from_str("{\"compilazione_id\":");
    text.append(json_string_literal(compilation_id).as_str());
    text.append(",\"installation_id\":");
    text.append(json_string_literal(installation_id).as_str());
    text.append(",\"sessione_id\":");
    text.append(json_string_literal(session_id).as_str());
    text.append("}");
    text
}

/// The data of a `compilazione.read` or `compilazione.submit` request.
pub open spec fn compilation_data_text(compilation_id: Seq<char>) -> Seq<char> {
    "{\"compilazione_id\":"@ + json_quoted(compilation_id) + "}"@
}

/// The data of a `compilazione.read` or `compilazione.submit` request.
pub fn compilation_data(compilation_id: &str) -> (text: String)
    ensures
        text@ == compilation_data_text(compilation_id@),
{
    let mut text = String::from_str("{\"compilazione_id\":");
    text.append(json_string_literal(compilation_id).as_str());
    text.append("}");
    text
}

/// The request envelope: version `1.0`, type `request`, the request id, the
/// command, the bearer token when there is one, and the command's data.
pub open spec fn request_envelope_text(
    request_id: Seq<char>,
    cmd: Seq<char>,
    token: Option<Seq<char>>,
    data: Seq<char>,
) -> Seq<char> {
    let auth = match token {
        Some(t) => "\"auth\":{\"token\":"@ + json_quoted(t) + "},"@,
        None => Seq::empty(),
    };
    "{"@ + auth + "\"cmd\":"@ + json_quoted(cmd) + ",\"data\":"@ + data + ",\"request_id\":"@
        + json_quoted(request_id) + ",\"type\":\"request\",\"version\":\"1.0\"}"@
}

/// The request envelope for a command; `data` is the command's JSON text.
pub fn request_envelope(request_id: &str, cmd: &str, token: Option<&str>, data: &str) -> (text:
    String)
    ensures
        text@ == request_envelope_text(
            request_id@,
            cmd@,
            match token {
                Some(t) => Some(t@),
                None => None,
            },
            data@,
        ),
{
    let mut text = String::from_str("{");
    match token {
        Some(t) => {
            let mut auth = String::from_str("\"auth\":{\"token\":");
            auth.append(json_string_literal(t).as_str());
            auth.append("},");
            text.append(auth.as_str());
        },
        None => {
            proof {
                assert("{"@ + Seq::<char>::empty() =~= "{"@);
            }
        },
    }
    text.append("\"cmd\":");
    text.append(json_string_literal(cmd).as_str());
    text.append(",\"data\":");
    text.append(data);
    text.append(",\"request_id\":");
    text.append(json_string_literal(request_id).as_str());
    text.append(",\"type\":\"request\",\"version\":\"1.0\"}");
    text
}


/// The optional token as text.
pub open spec fn opt_str_text(o: Option<&str>) -> Option<Seq<char>> {
    match o {
        Some(t) => Some(t@),
        None => None,
    }
}

/// A request for a command under a fresh random request identifier: the
/// identifier and the envelope to send.
pub fn new_request(cmd: &str, token: Option<&str>, data: &str) -> (r: (String, String))
    ensures
        uuid_v4_text(r.0@),
        r.1@ == request_envelope_text(r.0@, cmd@, opt_str_text(token), data@),
{
    let id = new_request_id();
    let envelope = request_envelope(id.as_str(), cmd, token, data);
    (id, envelope)
}

// ---------------------------------------------------------------------------
// Responses
// ---------------------------------------------------------------------------

/// The error part of a failed response.
pub struct CommandError {
    pub code: String,
    pub message: String,
    pub retryable: bool,
}

/// A response envelope, with its data already read as `T`.
pub struct CommandResponse<T> {
    pub version: String,
    pub message_type: String,
    pub request_id: String,
    pub cmd: String,
    pub ok: bool,
    pub data: Option<T>,
    pub error: Option<CommandError>,
}

/// What a response envelope means for the request `request_id` of command
/// `cmd`: the envelope must be a version 1.0 response to that request and
/// command; a failed response becomes a server error (an unknown,
/// non-retryable one when the server gave no details); a successful one must
/// carry data.
pub open spec fn decoded<T>(response: CommandResponse<T>, request_id: Seq<char>, cmd: Seq<char>) -> Result<
    T,
    ErrorView,
> {
    if response.version@ != "1.0"@ || response.message_type@ != "response"@ {
        Err(ErrorView::Protocol("envelope di risposta non valido"@))
    } else if response.request_id@ != request_id {
        Err(ErrorView::Protocol("request_id inatteso: "@ + response.request_id@))
    } else if response.cmd@ != cmd {
        Err(ErrorView::Protocol("cmd inatteso: "@ + response.cmd@))
    } else if !response.ok {
        match response.error {
            Some(e) => Err(ErrorView::Server { code: e.code@, message: e.message@, retryable: e.retryable }),
            None => Err(
                ErrorView::Server {
                    code: "UNKNOWN_ERROR"@,
                    message: "errore server senza descrizione"@,
                    retryable: false,
                },
            ),
        }
    } else {
        match response.data {
            Some(d) => Ok(d),
            None => Err(ErrorView::Protocol("data assente nella risposta"@)),
        }
    }
}

/// Checks a response envelope against the request and extracts its data.
pub fn decode_response<T>(response: CommandResponse<T>, request_id: &str, cmd: &str) -> (r: Result<T, AppError>)
    ensures
        match r {
            Ok(d) => decoded(response, request_id@, cmd@) == Ok::<T, ErrorView>(d),
            Err(e) => decoded(response, request_id@, cmd@) == Err::<T, ErrorView>(e@),
        },
{
    if !(response.version == String::from_str("1.0")) || !(response.message_type == String::from_str("response")) {
        return Err(AppError::Protocol(String::from_str("envelope di risposta non valido")));
    }
    if !(response.request_id == String::from_str(request_id)) {
        return Err(AppError::Protocol(String::from_str("request_id inatteso: ").concat(response.request_id.as_str())));
    }
    if !(response.cmd == String::from_str(cmd)) {
        return Err(AppError::Protocol(String::from_str("cmd inatteso: ").concat(response.cmd.as_str())));
    }
    if !response.ok {
        return match response.error {
            Some(e) => Err(AppError::Server { code: e.code, message: e.message, retryable: e.retryable }),
            None => Err(
                AppError::Server {
                    code: String::from_str("UNKNOWN_ERROR"),
                    message: String::from_str("errore server senza descrizione"),
                    retryable: false,
                },
            ),
        };
    }
    match response.data {
        Some(d) => Ok(d),
        None => Err(AppError::Protocol(String::from_str("data assente nella risposta"))),
    }
}

// ---------------------------------------------------------------------------
// Sending with retries
// ---------------------------------------------------------------------------

/// A failure of the transport itself, after which the same request may be
/// sent again.
pub open spec fn transport_failure(e: ErrorView) -> bool {
    e is Disconnected || e is Timeout
}

/// The progress of one command through its attempts.
pub struct CommandAttempts {
    request_id: String,
    envelope: String,
    total: usize,
    attempt: usize,
}

/// The request of a command (its identifier and envelope, sent unchanged by
/// every attempt), and `attempt`, the number of the attempt under way, out
/// of `total`.
pub struct CommandAttemptsView {
    pub request_id: Seq<char>,
    pub envelope: Seq<char>,
    pub total: usize,
    pub attempt: usize,
}

impl View for CommandAttempts {
    type V = CommandAttemptsView;

    closed spec fn view(&self) -> CommandAttemptsView {
        CommandAttemptsView {
            request_id: self.request_id@,
            envelope: self.envelope@,
            total: self.total,
            attempt: self.attempt,
        }
    }
}

/// What follows a failed attempt.
pub enum AttemptOutcome {
    /// Send the same envelope again.
    Retry,
    /// Give up with this error.
    Fail(AppError),
}

impl CommandAttempts {
    /// The attempt under way is one of the attempts allowed.
    #[verifier::type_invariant]
    closed spec fn within_total(&self) -> bool {
        1 <= self.attempt <= self.total
    }

    /// The attempts of the request `request_id` with the given envelope,
    /// which may be sent `attempts` times; it is always sent at least once.
    pub fn new(request_id: String, envelope: String, attempts: usize) -> (r: Self)
        ensures
            r@.request_id == request_id@,
            r@.envelope == envelope@,
            r@.total == if attempts == 0 {
                1
            } else {
                attempts
            },
            r@.attempt == 1,
    {
        CommandAttempts { request_id, envelope, total: if attempts == 0 { 1 } else { attempts }, attempt: 1 }
    }

    /// The identifier of the request.
    pub fn request_id(&self) -> (id: &str)
        ensures
            id@ == self@.request_id,
    {
        self.request_id.as_str()
    }

    /// The envelope that every attempt sends.
    pub fn envelope(&self) -> (text: &str)
        ensures
            text@ == self@.envelope,
    {
        self.envelope.as_str()
    }

    /// The number of attempts allowed.
    pub fn total(&self) -> (n: usize)
        ensures
            n == self@.total,
            1 <= self@.attempt <= self@.total,
    {
        proof {
            use_type_invariant(self);
        }
        self.total
    }

    /// The number of the attempt under way.
    pub fn attempt(&self) -> (n: usize)
        ensures
            n == self@.attempt,
            1 <= self@.attempt <= self@.total,
    {
        proof {
            use_type_invariant(self);
        }
        self.attempt
    }

    /// An attempt failed with `error`. Transport failures (disconnection,
    /// timeout) are retried, with the same request, until the attempts are
    /// used up, and then the last one is returned; any other error is
    /// returned at once.
    pub fn record_failure(&mut self, error: AppError) -> (outcome: AttemptOutcome)
        ensures
            final(self)@.request_id == old(self)@.request_id,
            final(self)@.envelope == old(self)@.envelope,
            final(self)@.total == old(self)@.total,
            1 <= final(self)@.attempt <= final(self)@.total,
            match outcome {
                AttemptOutcome::Retry => transport_failure(error@) && old(self)@.attempt < old(self)@.total
                    && final(self)@.attempt == old(self)@.attempt + 1,
                AttemptOutcome::Fail(e) => e == error && (!transport_failure(error@) || old(self)@.attempt
                    == old(self)@.total) && final(self)@.attempt == old(self)@.attempt,
            },
    {
        proof {
            use_type_invariant(&*self);
        }
        let transport = match &error {
            AppError::Disconnected => true,
            AppError::Timeout(_) => true,
            _ => false,
        };
        if transport && self.attempt < self.total {
            self.attempt = self.attempt + 1;
            AttemptOutcome::Retry
        } else {
            AttemptOutcome::Fail(error)
        }
    }
}

} // verus!
