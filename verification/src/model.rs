use vstd::prelude::*;
use vstd::string::*;
use crate::text::opt_text;

verus! {

/// The state of the client as the user interface shows it.
#[derive(Clone, Copy, Debug, PartialEq, Eq, Structural)]
pub enum ClientState {
    Disconnected,
    Connected,
    Starting,
    Running,
    Offline,
    Submitting,
    Submitted,
    Error,
}

/// Server endpoint and identifiers of the compilation attempt.
#[derive(Debug)]
pub struct ClientConfig {
    pub server_url: String,
    pub installation_id: String,
    pub session_id: String,
    pub compilation_id: String,
    pub request_timeout_ms: u64,
}

/// The request timeout, in milliseconds, when none is configured.
pub const DEFAULT_REQUEST_TIMEOUT_MS: u64 = 8000;

impl Clone for ClientConfig {
    fn clone(&self) -> (r: Self)
        ensures
            r == *self,
    {
        ClientConfig {
            server_url: self.server_url.clone(),
            installation_id: self.installation_id.clone(),
            session_id: self.session_id.clone(),
            compilation_id: self.compilation_id.clone(),
            request_timeout_ms: self.request_timeout_ms,
        }
    }
}

fn value_or(value: Option<String>, default: &str) -> (r: String)
    ensures
        r@ == (match value {
            Some(v) => v@,
            None => default@,
        }),
{
    match value {
        Some(v) => v,
        None => String::from_str(default),
    }
}

impl ClientConfig {
    /// The configuration used when none has been stored yet: each value given
    /// by the environment wins over the built-in default for it.
    pub fn from_env_values(
        server_url: Option<String>,
        installation_id: Option<String>,
        session_id: Option<String>,
        compilation_id: Option<String>,
    ) -> (config: ClientConfig)
        ensures
            config.server_url@ == (match server_url {
                Some(v) => v@,
                None => "ws://127.0.0.1:32456/hws"@,
            }),
            config.installation_id@ == (match installation_id {
                Some(v) => v@,
                None => "http-installation-test-1"@,
            }),
            config.session_id@ == (match session_id {
                Some(v) => v@,
                None => "ws-session-test-1"@,
            }),
            config.compilation_id@ == (match compilation_id {
                Some(v) => v@,
                None => "tauri-compilation-test-1"@,
            }),
            config.request_timeout_ms == DEFAULT_REQUEST_TIMEOUT_MS,
    {
        ClientConfig {
            server_url: value_or(server_url, "ws://127.0.0.1:32456/hws"),
            installation_id: value_or(installation_id, "http-installation-test-1"),
            session_id: value_or(session_id, "ws-session-test-1"),
            compilation_id: value_or(compilation_id, "tauri-compilation-test-1"),
            request_timeout_ms: DEFAULT_REQUEST_TIMEOUT_MS,
        }
    }
}

/// What the user submits to configure the client.
#[derive(Debug)]
pub struct ConfigureClientInput {
    pub server_url: String,
    pub token: String,
    pub installation_id: String,
    pub session_id: String,
    pub compilation_id: String,
    pub request_timeout_ms: Option<u64>,
}

/// The persistent state of the client.
#[derive(Debug)]
pub struct ClientSnapshot {
    pub state: ClientState,
    pub server_url: String,
    pub installation_id: String,
    pub session_id: String,
    pub compilation_id: String,
    pub websocket_connected: bool,
    pub server_revision: u64,
    pub expires_at: Option<String>,
    pub receipt: Option<String>,
    pub submitted_at: Option<String>,
    pub monitor_count: Option<usize>,
    pub last_error: Option<String>,
}

impl Clone for ClientSnapshot {
    fn clone(&self) -> (r: Self)
        ensures
            r == *self,
    {
        ClientSnapshot {
            state: self.state,
            server_url: self.server_url.clone(),
            installation_id: self.installation_id.clone(),
            session_id: self.session_id.clone(),
            compilation_id: self.compilation_id.clone(),
            websocket_connected: self.websocket_connected,
            server_revision: self.server_revision,
            expires_at: self.expires_at.clone(),
            receipt: self.receipt.clone(),
            submitted_at: self.submitted_at.clone(),
            monitor_count: self.monitor_count,
            last_error: self.last_error.clone(),
        }
    }
}

/// The snapshot of a client that has just been configured: disconnected, at
/// revision zero, with nothing received from the server yet.
pub open spec fn fresh_snapshot(config: ClientConfig) -> ClientSnapshot {
    ClientSnapshot {
        state: ClientState::Disconnected,
        server_url: config.server_url,
        installation_id: config.installation_id,
        session_id: config.session_id,
        compilation_id: config.compilation_id,
        websocket_connected: false,
        server_revision: 0,
        expires_at: None,
        receipt: None,
        submitted_at: None,
        monitor_count: None,
        last_error: None,
    }
}

impl ClientSnapshot {
    pub fn from_config(config: &ClientConfig) -> (snapshot: Self)
        ensures
            snapshot == fresh_snapshot(*config),
    {
        ClientSnapshot {
            state: ClientState::Disconnected,
            server_url: config.server_url.clone(),
            installation_id: config.installation_id.clone(),
            session_id: config.session_id.clone(),
            compilation_id: config.compilation_id.clone(),
            websocket_connected: false,
            server_revision: 0,
            expires_at: None,
            receipt: None,
            submitted_at: None,
            monitor_count: None,
            last_error: None,
        }
    }
}

/// Where the local copy of an answer stands with respect to the server.
#[derive(Clone, Copy, Debug, PartialEq, Eq, Structural)]
pub enum AnswerSyncState {
    Pending,
    Synced,
    Error,
}

/// An answer as the client holds it. `answer` is the answer's JSON text.
#[derive(Debug)]
pub struct LocalAnswer {
    pub question_id: String,
    pub client_revision: u64,
    pub server_revision: Option<u64>,
    pub answer: String,
    pub sync_state: AnswerSyncState,
    pub last_error: Option<String>,
}

/// An answer with its texts as character sequences.
pub struct LocalAnswerView {
    pub question_id: Seq<char>,
    pub client_revision: u64,
    pub server_revision: Option<u64>,
    pub answer: Seq<char>,
    pub sync_state: AnswerSyncState,
    pub last_error: Option<Seq<char>>,
}

impl View for LocalAnswer {
    type V = LocalAnswerView;

    open spec fn view(&self) -> LocalAnswerView {
        LocalAnswerView {
            question_id: self.question_id@,
            client_revision: self.client_revision,
            server_revision: self.server_revision,
            answer: self.answer@,
            sync_state: self.sync_state,
            last_error: opt_text(self.last_error),
        }
    }
}

impl Clone for LocalAnswer {
    fn clone(&self) -> (r: Self)
        ensures
            r == *self,
    {
        LocalAnswer {
            question_id: self.question_id.clone(),
            client_revision: self.client_revision,
            server_revision: self.server_revision,
            answer: self.answer.clone(),
            sync_state: self.sync_state,
            last_error: self.last_error.clone(),
        }
    }
}

/// Everything the user interface is shown about the client.
#[derive(Debug)]
pub struct ClientRuntime {
    pub snapshot: ClientSnapshot,
    pub config: ClientConfig,
    pub answers: Vec<LocalAnswer>,
    pub token_loaded: bool,
    pub fullscreen: bool,
    pub sqlite_path: String,
    pub pending_outbox: u64,
    pub outbox_errors: u64,
}

/// Credentials for `auth.activate`.
#[derive(Debug)]
pub struct ActivateAttemptInput {
    pub username: String,
    pub password: String,
}

/// The data of a successful `auth.activate` response.
#[derive(Debug)]
pub struct ActivateAttemptData {
    pub access_token: String,
    pub token_type: String,
    pub expires_in: u64,
    pub compilazione_id: String,
    pub state: String,
    pub server_revision: u64,
    pub started_at: String,
    pub expires_at: String,
}

/// The data of a successful `compilazione.start` response.
#[derive(Debug)]
pub struct StartAttemptData {
    pub compilazione_id: String,
    pub state: String,
    pub server_revision: u64,
    pub started_at: String,
    pub expires_at: String,
}

/// The data of a successful `compilazione.read` response.
#[derive(Debug)]
pub struct QuestionnaireReadData {
    pub compilazione_id: String,
    pub state: String,
    pub server_revision: u64,
    pub expires_at: String,
    pub questionario: Questionnaire,
    pub answers: Vec<ServerAnswer>,
}

/// An answer as the server has stored it. `answer` is the answer's JSON text.
#[derive(Debug)]
pub struct ServerAnswer {
    pub question_id: String,
    pub client_revision: u64,
    pub server_revision: u64,
    pub answer: String,
}

/// A server answer with its texts as character sequences.
pub struct ServerAnswerView {
    pub question_id: Seq<char>,
    pub client_revision: u64,
    pub server_revision: u64,
    pub answer: Seq<char>,
}

impl View for ServerAnswer {
    type V = ServerAnswerView;

    open spec fn view(&self) -> ServerAnswerView {
        ServerAnswerView {
            question_id: self.question_id@,
            client_revision: self.client_revision,
            server_revision: self.server_revision,
            answer: self.answer@,
        }
    }
}

/// A questionnaire.
#[derive(Debug)]
pub struct Questionnaire {
    pub questionnaire_id: String,
    pub revision: u64,
    pub title: String,
    pub questions: Vec<Question>,
}

/// A question of a questionnaire.
#[derive(Debug)]
pub struct Question {
    pub question_id: String,
    pub question_type: String,
    pub text: String,
    pub required: bool,
    pub options: Vec<QuestionOption>,
}

/// A choice offered by a question.
#[derive(Debug)]
pub struct QuestionOption {
    pub option_id: String,
    pub text: String,
}

impl Clone for QuestionOption {
    fn clone(&self) -> (r: Self)
        ensures
            r == *self,
    {
        QuestionOption { option_id: self.option_id.clone(), text: self.text.clone() }
    }
}

/// A question, with its options as a sequence.
pub struct QuestionView {
    pub question_id: String,
    pub question_type: String,
    pub text: String,
    pub required: bool,
    pub options: Seq<QuestionOption>,
}

impl View for Question {
    type V = QuestionView;

    open spec fn view(&self) -> QuestionView {
        QuestionView {
            question_id: self.question_id,
            question_type: self.question_type,
            text: self.text,
            required: self.required,
            options: self.options@,
        }
    }
}

/// A questionnaire, with its questions as a sequence of question views.
pub struct QuestionnaireView {
    pub questionnaire_id: String,
    pub revision: u64,
    pub title: String,
    pub questions: Seq<QuestionView>,
}

impl View for Questionnaire {
    type V = QuestionnaireView;

    open spec fn view(&self) -> QuestionnaireView {
        QuestionnaireView {
            questionnaire_id: self.questionnaire_id,
            revision: self.revision,
            title: self.title,
            questions: self.questions@.map_values(|q: Question| q@),
        }
    }
}

impl Question {
    /// A copy of the question.
    pub fn duplicate(&self) -> (r: Self)
        ensures
            r@ == self@,
    {
        let mut options: Vec<QuestionOption> = Vec::new();
        let n: usize = self.options.len();
        for i in 0..n
            invariant
                n == self.options@.len(),
                options@ == self.options@.take(i as int),
        {
            options.push(self.options[i].clone());
            proof {
                assert(self.options@.take(i + 1) =~= self.options@.take(i as int).push(
                    self.options@[i as int],
                ));
            }
        }
        proof {
            assert(self.options@.take(n as int) =~= self.options@);
        }
        Question {
            question_id: self.question_id.clone(),
            question_type: self.question_type.clone(),
            text: self.text.clone(),
            required: self.required,
            options,
        }
    }
}

impl Questionnaire {
    /// A copy of the questionnaire.
    pub fn duplicate(&self) -> (r: Self)
        ensures
            r@ == self@,
    {
        let mut questions: Vec<Question> = Vec::new();
        let n: usize = self.questions.len();
        for i in 0..n
            invariant
                n == self.questions@.len(),
                questions@.len() == i,
                forall|j: int| 0 <= j < i ==> #[trigger] questions@[j]@ == self.questions@[j]@,
        {
            questions.push(self.questions[i].duplicate());
        }
        let r = Questionnaire {
            questionnaire_id: self.questionnaire_id.clone(),
            revision: self.revision,
            title: self.title.clone(),
            questions,
        };
        proof {
            assert(r@.questions =~= self@.questions);
        }
        r
    }
}

/// What the user submits to change an answer. `answer` is the answer's JSON
/// text.
#[derive(Debug)]
pub struct SaveAnswerInput {
    pub question_id: String,
    pub client_revision: u64,
    pub answer: String,
}

/// The data of a successful `compilazione.save-answer` response.
#[derive(Debug)]
pub struct SaveAnswerResult {
    pub question_id: String,
    pub client_revision: u64,
    pub server_revision: u64,
    pub idempotent: bool,
}

/// What saving an answer reports to the user interface.
#[derive(Debug)]
pub struct SaveAnswerOutcome {
    pub question_id: String,
    pub client_revision: u64,
    pub server_revision: Option<u64>,
    pub idempotent: Option<bool>,
    pub queued: bool,
}

/// The result of one pass over the outbox.
#[derive(Debug)]
pub struct SyncSummary {
    pub attempted: u64,
    pub synced: u64,
    pub pending: u64,
    pub errors: u64,
    pub last_error: Option<String>,
}

/// The data of a successful `compilazione.submit` response.
#[derive(Debug)]
pub struct SubmitData {
    pub state: String,
    pub submitted_at: String,
    pub receipt: String,
    pub idempotent: bool,
}

/// What a successful submit reports to the user interface.
#[derive(Debug)]
pub struct SubmitResult {
    pub snapshot: ClientSnapshot,
    pub receipt: String,
    pub submitted_at: String,
    pub idempotent: bool,
}

/// The state file of earlier client versions.
#[derive(Debug)]
pub struct Checkpoint {
    pub config: ClientConfig,
    pub snapshot: ClientSnapshot,
    pub answers: Vec<LocalAnswer>,
}

} // verus!
