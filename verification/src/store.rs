//! The client's persistent store: the client state, the local answers, the
//! outbox of answers waiting for the server, and the questionnaire cache.
//! Each operation has the meaning of the SQL transaction that the client
//! runs on its SQLite file; the file itself is written by the application
//! shell from the rows kept here.

use vstd::prelude::*;
use vstd::string::*;
use crate::clock::{now, new_request_id, uuid_v4_text};
use crate::error::{AppError, ErrorView};
use crate::keyed::{
    keys_unique, has_key, table, restrict, lemma_table_index, lemma_table_empty,
    lemma_table_update, lemma_table_push, lemma_table_remove, lemma_table_filter, lemma_table_map,
};
use crate::model::{
    AnswerSyncState, ClientConfig, ClientSnapshot, LocalAnswer, LocalAnswerView, Questionnaire,
    QuestionnaireView, SaveAnswerResult, ServerAnswer, ServerAnswerView, Checkpoint,
};
use crate::protocol::{save_answer_data, save_answer_data_text};
use crate::text::{
    decimal, decimal_text, opt_text, signed_decimal, signed_decimal_text, text_before, text_precedes, lemma_text_irreflexive,
    lemma_text_transitive, lemma_text_total,
};

verus! {

/// The largest value of an SQLite integer.
pub open spec fn sqlite_max() -> int {
    0x7fff_ffff_ffff_ffff
}

/// Delivery state of an outbox entry.
#[derive(Clone, Copy, Debug, PartialEq, Eq, Structural)]
pub enum OutboxStatus {
    Pending,
    InFlight,
    Error,
}

/// A row of the `local_answer` table.
#[derive(Debug)]
pub struct AnswerRow {
    pub compilation_id: String,
    pub question_id: String,
    pub client_revision: u64,
    pub server_revision: Option<u64>,
    pub answer_json: String,
    pub sync_state: AnswerSyncState,
    pub last_error: Option<String>,
    pub updated_at: String,
}

/// The content of a `local_answer` row; the time of its last change is left
/// out.
pub struct AnswerRecord {
    pub compilation_id: Seq<char>,
    pub question_id: Seq<char>,
    pub client_revision: u64,
    pub server_revision: Option<u64>,
    pub answer_json: Seq<char>,
    pub sync_state: AnswerSyncState,
    pub last_error: Option<Seq<char>>,
}

impl View for AnswerRow {
    type V = AnswerRecord;

    open spec fn view(&self) -> AnswerRecord {
        AnswerRecord {
            compilation_id: self.compilation_id@,
            question_id: self.question_id@,
            client_revision: self.client_revision,
            server_revision: self.server_revision,
            answer_json: self.answer_json@,
            sync_state: self.sync_state,
            last_error: opt_text(self.last_error),
        }
    }
}

impl Clone for AnswerRow {
    fn clone(&self) -> (r: Self)
        ensures
            r == *self,
    {
        AnswerRow {
            compilation_id: self.compilation_id.clone(),
            question_id: self.question_id.clone(),
            client_revision: self.client_revision,
            server_revision: self.server_revision,
            answer_json: self.answer_json.clone(),
            sync_state: self.sync_state,
            last_error: self.last_error.clone(),
            updated_at: self.updated_at.clone(),
        }
    }
}

/// A row of the `outbox` table. The request's payload is not stored apart:
/// it is the `compilazione.save-answer` data of the row's compilation,
/// question, revision and answer.
#[derive(Debug)]
pub struct OutboxRow {
    pub sequence: i64,
    pub request_id: String,
    pub compilation_id: String,
    pub question_id: String,
    pub client_revision: u64,
    pub command: String,
    pub answer_json: String,
    pub status: OutboxStatus,
    pub attempts: i64,
    pub last_error: Option<String>,
    pub created_at: String,
    pub updated_at: String,
}

/// The content of an `outbox` row; the times of its creation and last change
/// are left out.
pub struct OutboxRecord {
    pub sequence: i64,
    pub request_id: Seq<char>,
    pub compilation_id: Seq<char>,
    pub question_id: Seq<char>,
    pub client_revision: u64,
    pub command: Seq<char>,
    pub answer_json: Seq<char>,
    pub status: OutboxStatus,
    pub attempts: i64,
    pub last_error: Option<Seq<char>>,
}

impl View for OutboxRow {
    type V = OutboxRecord;

    open spec fn view(&self) -> OutboxRecord {
        OutboxRecord {
            sequence: self.sequence,
            request_id: self.request_id@,
            compilation_id: self.compilation_id@,
            question_id: self.question_id@,
            client_revision: self.client_revision,
            command: self.command@,
            answer_json: self.answer_json@,
            status: self.status,
            attempts: self.attempts,
            last_error: opt_text(self.last_error),
        }
    }
}

impl Clone for OutboxRow {
    fn clone(&self) -> (r: Self)
        ensures
            r == *self,
    {
        OutboxRow {
            sequence: self.sequence,
            request_id: self.request_id.clone(),
            compilation_id: self.compilation_id.clone(),
            question_id: self.question_id.clone(),
            client_revision: self.client_revision,
            command: self.command.clone(),
            answer_json: self.answer_json.clone(),
            status: self.status,
            attempts: self.attempts,
            last_error: self.last_error.clone(),
            created_at: self.created_at.clone(),
            updated_at: self.updated_at.clone(),
        }
    }
}

/// A row of the `questionnaire_cache` table.
#[derive(Debug)]
pub struct CachedQuestionnaire {
    pub compilation_id: String,
    pub questionnaire: Questionnaire,
    pub updated_at: String,
}

/// The content of a `questionnaire_cache` row.
pub struct CacheRecord {
    pub compilation_id: Seq<char>,
    pub questionnaire: QuestionnaireView,
}

impl View for CachedQuestionnaire {
    type V = CacheRecord;

    open spec fn view(&self) -> CacheRecord {
        CacheRecord { compilation_id: self.compilation_id@, questionnaire: self.questionnaire@ }
    }
}

impl CachedQuestionnaire {
    fn duplicate(&self) -> (r: Self)
        ensures
            r@ == self@,
    {
        CachedQuestionnaire {
            compilation_id: self.compilation_id.clone(),
            questionnaire: self.questionnaire.duplicate(),
            updated_at: self.updated_at.clone(),
        }
    }
}

/// An outbox entry handed out for sending.
#[derive(Debug)]
pub struct OutboxEntry {
    pub sequence: i64,
    pub request_id: String,
    pub compilation_id: String,
    pub question_id: String,
    pub client_revision: u64,
    pub command: String,
    pub payload: String,
}

/// An outbox entry with its texts as character sequences.
pub struct OutboxEntryView {
    pub sequence: i64,
    pub request_id: Seq<char>,
    pub compilation_id: Seq<char>,
    pub question_id: Seq<char>,
    pub client_revision: u64,
    pub command: Seq<char>,
    pub payload: Seq<char>,
}

impl View for OutboxEntry {
    type V = OutboxEntryView;

    open spec fn view(&self) -> OutboxEntryView {
        OutboxEntryView {
            sequence: self.sequence,
            request_id: self.request_id@,
            compilation_id: self.compilation_id@,
            question_id: self.question_id@,
            client_revision: self.client_revision,
            command: self.command@,
            payload: self.payload@,
        }
    }
}

impl Clone for OutboxEntry {
    fn clone(&self) -> (r: Self)
        ensures
            r == *self,
    {
        OutboxEntry {
            sequence: self.sequence,
            request_id: self.request_id.clone(),
            compilation_id: self.compilation_id.clone(),
            question_id: self.question_id.clone(),
            client_revision: self.client_revision,
            command: self.command.clone(),
            payload: self.payload.clone(),
        }
    }
}

/// The entry handed out for an outbox row: its payload is the save-answer
/// data of the row.
pub open spec fn entry_of(r: OutboxRecord) -> OutboxEntryView {
    OutboxEntryView {
        sequence: r.sequence,
        request_id: r.request_id,
        compilation_id: r.compilation_id,
        question_id: r.question_id,
        client_revision: r.client_revision,
        command: r.command,
        payload: save_answer_data_text(
            r.compilation_id,
            r.question_id,
            r.client_revision,
            r.answer_json,
        ),
    }
}

/// The whole content of the store.
pub struct StoreView {
    pub path: Seq<char>,
    pub state: Option<(ClientConfig, ClientSnapshot)>,
    pub answers: Map<(Seq<char>, Seq<char>), AnswerRecord>,
    pub outbox: Seq<OutboxRecord>,
    pub last_sequence: i64,
    pub questionnaires: Map<Seq<char>, CacheRecord>,
}

pub open spec fn answer_records(rows: Seq<AnswerRow>) -> Seq<AnswerRecord> {
    rows.map_values(|r: AnswerRow| r@)
}

pub open spec fn outbox_records(rows: Seq<OutboxRow>) -> Seq<OutboxRecord> {
    rows.map_values(|r: OutboxRow| r@)
}

pub open spec fn cache_records(rows: Seq<CachedQuestionnaire>) -> Seq<CacheRecord> {
    rows.map_values(|r: CachedQuestionnaire| r@)
}

/// The primary key of `local_answer`.
pub open spec fn answer_key() -> spec_fn(AnswerRecord) -> (Seq<char>, Seq<char>) {
    |r: AnswerRecord| (r.compilation_id, r.question_id)
}

/// The primary key of `questionnaire_cache`.
pub open spec fn cache_key() -> spec_fn(CacheRecord) -> Seq<char> {
    |r: CacheRecord| r.compilation_id
}

/// The outbox in sequence order: sequences strictly increase and never exceed
/// the last one handed out, request identifiers are unique, and the stored
/// integers fit SQLite.
pub open spec fn outbox_ordered(s: Seq<OutboxRecord>, last: i64) -> bool {
    &&& forall|i: int, j: int| 0 <= i < j < s.len() ==> s[i].sequence < s[j].sequence
    &&& forall|i: int| 0 <= i < s.len() ==> 1 <= #[trigger] s[i].sequence <= last
    &&& forall|i: int, j: int|
        0 <= i < s.len() && 0 <= j < s.len() && i != j ==> s[i].request_id != s[j].request_id
    &&& forall|i: int|
        0 <= i < s.len() ==> #[trigger] s[i].client_revision <= sqlite_max() && s[i].attempts >= 0
}

/// What every reachable content of the store satisfies.
pub open spec fn store_consistent(v: StoreView) -> bool {
    &&& outbox_ordered(v.outbox, v.last_sequence)
    &&& v.last_sequence >= 0
    &&& forall|k: (Seq<char>, Seq<char>)|
        #[trigger] v.answers.dom().contains(k) ==> {
            let a = v.answers[k];
            &&& (a.compilation_id, a.question_id) == k
            &&& a.client_revision <= sqlite_max()
            &&& (a.server_revision is Some ==> a.server_revision->0 <= sqlite_max())
        }
    &&& forall|k: Seq<char>|
        #[trigger] v.questionnaires.dom().contains(k) ==> v.questionnaires[k].compilation_id == k
            && v.questionnaires[k].questionnaire.revision <= sqlite_max()
}

/// The client's persistent store.
pub struct Database {
    path: String,
    state: Option<(ClientConfig, ClientSnapshot)>,
    answers: Vec<AnswerRow>,
    outbox: Vec<OutboxRow>,
    last_sequence: i64,
    questionnaires: Vec<CachedQuestionnaire>,
}

impl View for Database {
    type V = StoreView;

    closed spec fn view(&self) -> StoreView {
        StoreView {
            path: self.path@,
            state: self.state,
            answers: table(answer_records(self.answers@), answer_key()),
            outbox: outbox_records(self.outbox@),
            last_sequence: self.last_sequence,
            questionnaires: table(cache_records(self.questionnaires@), cache_key()),
        }
    }
}

// ---------------------------------------------------------------------------
// Errors
// ---------------------------------------------------------------------------

/// A number that does not fit an SQLite integer.
pub open spec fn too_large(value: u64) -> ErrorView {
    ErrorView::Storage("valore troppo grande per SQLite: "@ + decimal_text(value as nat))
}

/// The outbox has handed out the largest sequence number there is.
pub open spec fn outbox_full() -> ErrorView {
    ErrorView::Sqlite("database or disk is full"@)
}

/// A request identifier is already in the outbox.
pub open spec fn duplicate_request_id() -> ErrorView {
    ErrorView::Sqlite("UNIQUE constraint failed: outbox.request_id"@)
}

/// `Ok` with the expected content, or the expected error with the content
/// unchanged.
pub open spec fn applied(
    r: Result<(), AppError>,
    expected: Result<StoreView, ErrorView>,
    before: StoreView,
    after: StoreView,
) -> bool {
    match expected {
        Ok(v) => r is Ok && after == v,
        Err(e) => (r matches Err(x) && x@ == e) && after == before,
    }
}

fn too_large_error(value: u64) -> (e: AppError)
    ensures
        e@ == too_large(value),
{
    AppError::Storage(String::from_str("valore troppo grande per SQLite: ").concat(decimal(value).as_str()))
}

fn outbox_full_error() -> (e: AppError)
    ensures
        e@ == outbox_full(),
{
    AppError::Sqlite(String::from_str("database or disk is full"))
}

fn duplicate_request_id_error() -> (e: AppError)
    ensures
        e@ == duplicate_request_id(),
{
    AppError::Sqlite(String::from_str("UNIQUE constraint failed: outbox.request_id"))
}

// ---------------------------------------------------------------------------
// Meaning of the single-row statements
// ---------------------------------------------------------------------------

/// The `local_answer` row for an answer of a compilation.
pub open spec fn answer_record(compilation_id: Seq<char>, a: LocalAnswerView) -> AnswerRecord {
    AnswerRecord {
        compilation_id,
        question_id: a.question_id,
        client_revision: a.client_revision,
        server_revision: a.server_revision,
        answer_json: a.answer,
        sync_state: a.sync_state,
        last_error: a.last_error,
    }
}

/// The upsert of a `local_answer` row.
pub open spec fn with_answer(v: StoreView, rec: AnswerRecord) -> StoreView {
    StoreView { answers: v.answers.insert((rec.compilation_id, rec.question_id), rec), ..v }
}

/// `insert_local_answer`: both revisions must fit SQLite.
pub open spec fn answer_upsert(
    v: StoreView,
    compilation_id: Seq<char>,
    a: LocalAnswerView,
) -> Result<StoreView, ErrorView> {
    if a.client_revision > sqlite_max() {
        Err(too_large(a.client_revision))
    } else if a.server_revision matches Some(r) && r > sqlite_max() {
        Err(too_large(a.server_revision->0))
    } else {
        Ok(with_answer(v, answer_record(compilation_id, a)))
    }
}

/// A new pending outbox row.
pub open spec fn new_outbox_record(
    sequence: i64,
    request_id: Seq<char>,
    compilation_id: Seq<char>,
    question_id: Seq<char>,
    client_revision: u64,
    answer_json: Seq<char>,
) -> OutboxRecord {
    OutboxRecord {
        sequence,
        request_id,
        compilation_id,
        question_id,
        client_revision,
        command: "compilazione.save-answer"@,
        answer_json,
        status: OutboxStatus::Pending,
        attempts: 0,
        last_error: None,
    }
}

/// Some outbox row carries the request identifier.
pub open spec fn request_id_taken(v: StoreView, request_id: Seq<char>) -> bool {
    exists|i: int| 0 <= i < v.outbox.len() && v.outbox[i].request_id == request_id
}

/// `insert_outbox` of a save-answer request: the revision must fit SQLite,
/// a sequence number must be left, and the request identifier must be new.
pub open spec fn outbox_insert(
    v: StoreView,
    request_id: Seq<char>,
    compilation_id: Seq<char>,
    question_id: Seq<char>,
    client_revision: u64,
    answer_json: Seq<char>,
) -> Result<StoreView, ErrorView> {
    if client_revision > sqlite_max() {
        Err(too_large(client_revision))
    } else if v.last_sequence == i64::MAX {
        Err(outbox_full())
    } else if request_id_taken(v, request_id) {
        Err(duplicate_request_id())
    } else {
        Ok(
            StoreView {
                outbox: v.outbox.push(
                    new_outbox_record(
                        (v.last_sequence + 1) as i64,
                        request_id,
                        compilation_id,
                        question_id,
                        client_revision,
                        answer_json,
                    ),
                ),
                last_sequence: (v.last_sequence + 1) as i64,
                ..v
            },
        )
    }
}

/// `queue_answer`: the local answer and its outbox entry, in one transaction.
pub open spec fn queued(
    v: StoreView,
    compilation_id: Seq<char>,
    a: LocalAnswerView,
    request_id: Seq<char>,
) -> Result<StoreView, ErrorView> {
    match answer_upsert(v, compilation_id, a) {
        Err(e) => Err(e),
        Ok(v1) => outbox_insert(
            v1,
            request_id,
            compilation_id,
            a.question_id,
            a.client_revision,
            a.answer,
        ),
    }
}

/// The outbox entries that may be sent now, in sequence order: the pending
/// ones that no failed entry precedes.
pub open spec fn sendable(s: Seq<OutboxRecord>) -> Seq<OutboxRecord>
    decreases s.len(),
{
    if s.len() == 0 {
        s
    } else if s[0].status == OutboxStatus::Error {
        Seq::empty()
    } else if s[0].status == OutboxStatus::Pending {
        seq![s[0]] + sendable(s.drop_first())
    } else {
        sendable(s.drop_first())
    }
}

pub open spec fn min_len(limit: usize, n: nat) -> int {
    if limit < n {
        limit as int
    } else {
        n as int
    }
}

/// One more attempt, counted up to the largest SQLite integer.
pub open spec fn one_more(attempts: i64) -> i64 {
    if attempts < i64::MAX {
        (attempts + 1) as i64
    } else {
        attempts
    }
}

/// `mark_outbox_in_flight`.
pub open spec fn marked_in_flight(v: StoreView, sequence: i64) -> StoreView {
    StoreView {
        outbox: v.outbox.map_values(
            |r: OutboxRecord|
                if r.sequence == sequence {
                    OutboxRecord { status: OutboxStatus::InFlight, attempts: one_more(r.attempts), ..r }
                } else {
                    r
                },
        ),
        ..v
    }
}

/// The number of outbox entries with the given status class: failed ones
/// when `failed` is true, pending and in-flight ones otherwise.
pub open spec fn count_status(s: Seq<OutboxRecord>, failed: bool) -> nat
    decreases s.len(),
{
    if s.len() == 0 {
        0
    } else {
        count_status(s.drop_last(), failed) + if (s.last().status == OutboxStatus::Error)
            == failed {
            1nat
        } else {
            0nat
        }
    }
}

/// A change applied to every outbox row that it concerns.
pub enum OutboxUpdate {
    /// `mark_outbox_in_flight`: the row with this sequence is being sent.
    InFlight(i64),
    /// `fail_outbox`: the row with this sequence failed with the message;
    /// it stays pending when the failure is retryable.
    Failed(i64, String, bool),
    /// `retry_outbox_errors`: failed rows become pending again.
    RetryErrors,
    /// `rebind_compilation`: rows of the first compilation move to the second.
    Rebind(String, String),
    /// Opening the store: rows left in flight by an interrupted run become
    /// pending again.
    Recover,
}

/// What an outbox update does to a row.
pub open spec fn outbox_updated(op: OutboxUpdate, r: OutboxRecord) -> OutboxRecord {
    match op {
        OutboxUpdate::InFlight(sequence) => if r.sequence == sequence {
            OutboxRecord { status: OutboxStatus::InFlight, attempts: one_more(r.attempts), ..r }
        } else {
            r
        },
        OutboxUpdate::Failed(sequence, message, retryable) => if r.sequence == sequence {
            OutboxRecord {
                status: if retryable {
                    OutboxStatus::Pending
                } else {
                    OutboxStatus::Error
                },
                last_error: Some(message@),
                ..r
            }
        } else {
            r
        },
        OutboxUpdate::RetryErrors => if r.status == OutboxStatus::Error {
            OutboxRecord { status: OutboxStatus::Pending, last_error: None, ..r }
        } else {
            r
        },
        OutboxUpdate::Rebind(from, to) => if r.compilation_id == from@ {
            OutboxRecord { compilation_id: to@, ..r }
        } else {
            r
        },
        OutboxUpdate::Recover => recovered(r),
    }
}

/// An outbox row left in flight becomes pending again.
pub open spec fn recovered(r: OutboxRecord) -> OutboxRecord {
    if r.status == OutboxStatus::InFlight {
        OutboxRecord { status: OutboxStatus::Pending, ..r }
    } else {
        r
    }
}

/// Rows read from an SQLite file that the store can hold: unique primary
/// keys, the outbox in sequence order with unique request identifiers, and
/// revisions that fit SQLite.
pub open spec fn rows_consistent(
    answers: Seq<AnswerRecord>,
    outbox: Seq<OutboxRecord>,
    last_sequence: i64,
    caches: Seq<CacheRecord>,
) -> bool {
    &&& keys_unique(answers, answer_key())
    &&& keys_unique(caches, cache_key())
    &&& outbox_ordered(outbox, last_sequence)
    &&& last_sequence >= 0
    &&& forall|i: int|
        0 <= i < answers.len() ==> #[trigger] answers[i].client_revision <= sqlite_max() && (
        answers[i].server_revision is Some ==> answers[i].server_revision->0 <= sqlite_max())
    &&& forall|i: int| 0 <= i < caches.len() ==> #[trigger] caches[i].questionnaire.revision <= sqlite_max()
}

/// Which outbox rows a deletion keeps.
pub enum OutboxFilter {
    /// `DELETE FROM outbox WHERE sequence = ?`
    NotSequence(i64),
    /// `DELETE FROM outbox WHERE compilation_id = ?`
    NotCompilation(String),
}

pub open spec fn outbox_kept(f: OutboxFilter, r: OutboxRecord) -> bool {
    match f {
        OutboxFilter::NotSequence(sequence) => r.sequence != sequence,
        OutboxFilter::NotCompilation(c) => r.compilation_id != c@,
    }
}

pub open spec fn outbox_update_fn(op: OutboxUpdate) -> spec_fn(OutboxRecord) -> OutboxRecord {
    |r: OutboxRecord| outbox_updated(op, r)
}

pub open spec fn outbox_keep_fn(f: OutboxFilter) -> spec_fn(OutboxRecord) -> bool {
    |r: OutboxRecord| outbox_kept(f, r)
}

/// Every row updated, the order kept.
pub open spec fn outbox_map(v: StoreView, op: OutboxUpdate) -> StoreView {
    StoreView { outbox: v.outbox.map_values(outbox_update_fn(op)), ..v }
}

/// The rows that the filter keeps, in order.
pub open spec fn outbox_filter(v: StoreView, f: OutboxFilter) -> StoreView {
    StoreView { outbox: v.outbox.filter(outbox_keep_fn(f)), ..v }
}

/// The answer row after the server acknowledged the revision
/// `client_revision` with `server_revision`.
pub open spec fn acked_answer(a: AnswerRecord, client_revision: u64, server_revision: u64) -> AnswerRecord {
    if a.client_revision == client_revision {
        AnswerRecord {
            server_revision: Some(server_revision),
            sync_state: AnswerSyncState::Synced,
            last_error: None,
            ..a
        }
    } else {
        AnswerRecord { server_revision: Some(server_revision), ..a }
    }
}

/// The answer row after sending the revision `client_revision` failed.
pub open spec fn failed_answer(
    a: AnswerRecord,
    client_revision: u64,
    message: Seq<char>,
    retryable: bool,
) -> AnswerRecord {
    if a.client_revision == client_revision {
        AnswerRecord {
            sync_state: if retryable {
                AnswerSyncState::Pending
            } else {
                AnswerSyncState::Error
            },
            last_error: Some(message),
            ..a
        }
    } else {
        a
    }
}

/// The answer map with the row of the key changed by `f`, if there is one.
pub open spec fn answer_changed(
    answers: Map<(Seq<char>, Seq<char>), AnswerRecord>,
    k: (Seq<char>, Seq<char>),
    f: spec_fn(AnswerRecord) -> AnswerRecord,
) -> Map<(Seq<char>, Seq<char>), AnswerRecord> {
    if answers.dom().contains(k) {
        answers.insert(k, f(answers[k]))
    } else {
        answers
    }
}

/// `acknowledge_outbox`: the entry leaves the outbox and the answer takes the
/// server revision, becoming synchronised when its revision is the one sent.
pub open spec fn acknowledged(v: StoreView, entry: OutboxEntryView, server_revision: u64) -> Result<
    StoreView,
    ErrorView,
> {
    if entry.client_revision > sqlite_max() {
        Err(too_large(entry.client_revision))
    } else if server_revision > sqlite_max() {
        Err(too_large(server_revision))
    } else {
        Ok(
            StoreView {
                outbox: v.outbox.filter(|r: OutboxRecord| r.sequence != entry.sequence),
                answers: answer_changed(
                    v.answers,
                    (entry.compilation_id, entry.question_id),
                    |a: AnswerRecord| acked_answer(a, entry.client_revision, server_revision),
                ),
                ..v
            },
        )
    }
}

/// `fail_outbox`: the entry becomes pending again (retryable failure) or
/// failed, and so does the answer when its revision is the one sent.
pub open spec fn failed(
    v: StoreView,
    entry: OutboxEntryView,
    message: Seq<char>,
    retryable: bool,
) -> Result<StoreView, ErrorView> {
    if entry.client_revision > sqlite_max() {
        Err(too_large(entry.client_revision))
    } else {
        Ok(
            StoreView {
                outbox: v.outbox.map_values(
                    |r: OutboxRecord|
                        if r.sequence == entry.sequence {
                            OutboxRecord {
                                status: if retryable {
                                    OutboxStatus::Pending
                                } else {
                                    OutboxStatus::Error
                                },
                                last_error: Some(message),
                                ..r
                            }
                        } else {
                            r
                        },
                ),
                answers: answer_changed(
                    v.answers,
                    (entry.compilation_id, entry.question_id),
                    |a: AnswerRecord| failed_answer(a, entry.client_revision, message, retryable),
                ),
                ..v
            },
        )
    }
}

/// The answer row with a failed synchronisation made pending again.
pub open spec fn retried_answer(a: AnswerRecord) -> AnswerRecord {
    if a.sync_state == AnswerSyncState::Error {
        AnswerRecord { sync_state: AnswerSyncState::Pending, last_error: None, ..a }
    } else {
        a
    }
}

/// `retry_outbox_errors`: failed entries and failed answers become pending.
pub open spec fn retried(v: StoreView) -> StoreView {
    StoreView {
        outbox: v.outbox.map_values(
            |r: OutboxRecord|
                if r.status == OutboxStatus::Error {
                    OutboxRecord { status: OutboxStatus::Pending, last_error: None, ..r }
                } else {
                    r
                },
        ),
        answers: v.answers.map_values(|a: AnswerRecord| retried_answer(a)),
        ..v
    }
}

/// The answer row of a compilation as the user interface sees it.
pub open spec fn local_of(a: AnswerRecord) -> LocalAnswerView {
    LocalAnswerView {
        question_id: a.question_id,
        client_revision: a.client_revision,
        server_revision: a.server_revision,
        answer: a.answer_json,
        sync_state: a.sync_state,
        last_error: a.last_error,
    }
}

/// `load_answers`: the answers of a compilation, one per question.
pub open spec fn answers_loaded(
    m: Map<(Seq<char>, Seq<char>), AnswerRecord>,
    compilation_id: Seq<char>,
    loaded: Seq<LocalAnswerView>,
) -> bool {
    &&& forall|i: int|
        0 <= i < loaded.len() ==> m.dom().contains((compilation_id, #[trigger] loaded[i].question_id))
            && loaded[i] == local_of(m[(compilation_id, loaded[i].question_id)])
    &&& forall|q: Seq<char>|
        #[trigger] m.dom().contains((compilation_id, q)) ==> exists|i: int|
            0 <= i < loaded.len() && #[trigger] loaded[i].question_id == q
    &&& forall|i: int, j: int|
        0 <= i < loaded.len() && 0 <= j < loaded.len() && i != j ==> loaded[i].question_id
            != loaded[j].question_id
}

/// The answer rows of the other compilations.
pub open spec fn answers_without(
    m: Map<(Seq<char>, Seq<char>), AnswerRecord>,
    compilation_id: Seq<char>,
) -> Map<(Seq<char>, Seq<char>), AnswerRecord> {
    restrict(m, |k: (Seq<char>, Seq<char>)| k.0 != compilation_id)
}

/// `cache_questionnaire`: the revision must fit SQLite.
pub open spec fn cached(v: StoreView, compilation_id: Seq<char>, q: QuestionnaireView) -> Result<
    StoreView,
    ErrorView,
> {
    if q.revision > sqlite_max() {
        Err(too_large(q.revision))
    } else {
        Ok(
            StoreView {
                questionnaires: v.questionnaires.insert(
                    compilation_id,
                    CacheRecord { compilation_id, questionnaire: q },
                ),
                ..v
            },
        )
    }
}

/// `clear_attempt_data`: answers, outbox and cache emptied; the sequence
/// counter keeps its value.
pub open spec fn cleared(v: StoreView) -> StoreView {
    StoreView {
        answers: Map::empty(),
        outbox: Seq::empty(),
        questionnaires: Map::empty(),
        ..v
    }
}

/// `complete_submit`: the final state stored, the data of the submitted
/// compilation deleted.
pub open spec fn submit_completed(
    v: StoreView,
    config: ClientConfig,
    snapshot: ClientSnapshot,
    compilation_id: Seq<char>,
) -> StoreView {
    StoreView {
        state: Some((config, snapshot)),
        answers: answers_without(v.answers, compilation_id),
        outbox: v.outbox.filter(|r: OutboxRecord| r.compilation_id != compilation_id),
        questionnaires: v.questionnaires.remove(compilation_id),
        ..v
    }
}

/// Which answer rows a deletion keeps; `m` is the answer table before the
/// deletion.
pub enum AnswerFilter {
    /// `DELETE FROM local_answer WHERE compilation_id = ?`
    NotCompilation(String),
    /// The rows of the second compilation that a row of the first one
    /// replaces when it moves there (`UPDATE OR REPLACE`).
    NotReplacedBy(String, String),
}

pub open spec fn answer_kept(
    f: AnswerFilter,
    m: Map<(Seq<char>, Seq<char>), AnswerRecord>,
    k: (Seq<char>, Seq<char>),
) -> bool {
    match f {
        AnswerFilter::NotCompilation(c) => k.0 != c@,
        AnswerFilter::NotReplacedBy(from, to) => !(k.0 == to@ && m.dom().contains((from@, k.1))),
    }
}

pub open spec fn answer_keep_fn(
    f: AnswerFilter,
    m: Map<(Seq<char>, Seq<char>), AnswerRecord>,
) -> spec_fn((Seq<char>, Seq<char>)) -> bool {
    |k: (Seq<char>, Seq<char>)| answer_kept(f, m, k)
}

/// The answer row moved from compilation `from` to compilation `to`.
pub open spec fn renamed(a: AnswerRecord, from: Seq<char>, to: Seq<char>) -> AnswerRecord {
    if a.compilation_id == from {
        AnswerRecord { compilation_id: to, ..a }
    } else {
        a
    }
}

/// The answers after `UPDATE OR REPLACE local_answer SET compilation_id = to
/// WHERE compilation_id = from`: the rows of `from` move to `to`, replacing
/// the rows of `to` for the same questions.
pub open spec fn rebound_answers(
    m: Map<(Seq<char>, Seq<char>), AnswerRecord>,
    from: Seq<char>,
    to: Seq<char>,
) -> Map<(Seq<char>, Seq<char>), AnswerRecord> {
    Map::new(
        |k: (Seq<char>, Seq<char>)|
            if k.0 == to {
                m.dom().contains((from, k.1)) || m.dom().contains(k)
            } else {
                k.0 != from && m.dom().contains(k)
            },
        |k: (Seq<char>, Seq<char>)|
            if k.0 == to && m.dom().contains((from, k.1)) {
                renamed(m[(from, k.1)], from, to)
            } else {
                m[k]
            },
    )
}

/// `rebind_compilation`: the data of compilation `from` passes to
/// compilation `to`; nothing happens when `from` is empty or equal to `to`.
pub open spec fn rebound(v: StoreView, from: Seq<char>, to: Seq<char>) -> StoreView {
    if from.len() == 0 || from == to {
        v
    } else {
        StoreView {
            answers: rebound_answers(v.answers, from, to),
            outbox: v.outbox.map_values(
                |r: OutboxRecord|
                    if r.compilation_id == from {
                        OutboxRecord { compilation_id: to, ..r }
                    } else {
                        r
                    },
            ),
            questionnaires: if v.questionnaires.dom().contains(from) {
                v.questionnaires.insert(
                    to,
                    CacheRecord {
                        compilation_id: to,
                        questionnaire: v.questionnaires[from].questionnaire,
                    },
                ).remove(from)
            } else {
                v.questionnaires
            },
            ..v
        }
    }
}

proof fn lemma_table_rename(rows: Seq<AnswerRecord>, from: Seq<char>, to: Seq<char>)
    requires
        keys_unique(rows, answer_key()),
        from != to,
        forall|q: Seq<char>|
            !(#[trigger] table(rows, answer_key()).dom().contains((from, q)) && table(
                rows,
                answer_key(),
            ).dom().contains((to, q))),
    ensures
        keys_unique(rows.map_values(|a: AnswerRecord| renamed(a, from, to)), answer_key()),
        table(rows.map_values(|a: AnswerRecord| renamed(a, from, to)), answer_key())
            == rebound_answers(table(rows, answer_key()), from, to),
{
    let f = |a: AnswerRecord| renamed(a, from, to);
    let new_rows = rows.map_values(f);
    let m = table(rows, answer_key());
    assert forall|i: int| 0 <= i < rows.len() implies #[trigger] m.dom().contains(answer_key()(rows[i])) by {
        lemma_table_index(rows, answer_key(), i);
    }
    assert forall|a: int, b: int|
        0 <= a < new_rows.len() && 0 <= b < new_rows.len() && a != b implies answer_key()(
        new_rows[a]) != answer_key()(new_rows[b]) by {
        assert(new_rows[a] == f(rows[a]));
        assert(new_rows[b] == f(rows[b]));
        assert(m.dom().contains(answer_key()(rows[a])));
        assert(m.dom().contains(answer_key()(rows[b])));
    }
    let t = table(new_rows, answer_key());
    let expected = rebound_answers(m, from, to);
    assert forall|k: (Seq<char>, Seq<char>)| t.dom().contains(k) <==> expected.dom().contains(k) by {
        if has_key(new_rows, answer_key(), k) {
            let j = choose|j: int| 0 <= j < new_rows.len() && answer_key()(new_rows[j]) == k;
            assert(new_rows[j] == f(rows[j]));
            assert(m.dom().contains(answer_key()(rows[j])));
        }
        if expected.dom().contains(k) {
            if k.0 == to && m.dom().contains((from, k.1)) {
                let j = choose|j: int| 0 <= j < rows.len() && answer_key()(rows[j]) == (from, k.1);
                assert(new_rows[j] == f(rows[j]));
                assert(answer_key()(new_rows[j]) == k);
            } else {
                let j = choose|j: int| 0 <= j < rows.len() && answer_key()(rows[j]) == k;
                assert(new_rows[j] == f(rows[j]));
                assert(answer_key()(new_rows[j]) == k);
            }
        }
    }
    assert forall|k: (Seq<char>, Seq<char>)| t.dom().contains(k) implies t[k] == expected[k] by {
        let j = choose|j: int| 0 <= j < new_rows.len() && answer_key()(new_rows[j]) == k;
        lemma_table_index(new_rows, answer_key(), j);
        assert(new_rows[j] == f(rows[j]));
        lemma_table_index(rows, answer_key(), j);
    }
    assert(t =~= expected);
}

/// The `local_answer` row written for an answer read from the server.
pub open spec fn server_record(compilation_id: Seq<char>, sa: ServerAnswerView) -> AnswerRecord {
    AnswerRecord {
        compilation_id,
        question_id: sa.question_id,
        client_revision: sa.client_revision,
        server_revision: Some(sa.server_revision),
        answer_json: sa.answer,
        sync_state: AnswerSyncState::Synced,
        last_error: None,
    }
}

/// One upsert of `reconcile_server_answers`: the server's copy replaces the
/// local row unless the local row has changes not yet confirmed or a newer
/// revision.
pub open spec fn server_upsert(
    m: Map<(Seq<char>, Seq<char>), AnswerRecord>,
    compilation_id: Seq<char>,
    sa: ServerAnswerView,
) -> Map<(Seq<char>, Seq<char>), AnswerRecord> {
    let k = (compilation_id, sa.question_id);
    if !m.dom().contains(k) || (m[k].sync_state == AnswerSyncState::Synced && sa.client_revision
        >= m[k].client_revision) {
        m.insert(k, server_record(compilation_id, sa))
    } else {
        m
    }
}

/// The upserts of all server answers, in order.
pub open spec fn server_merged(
    m: Map<(Seq<char>, Seq<char>), AnswerRecord>,
    compilation_id: Seq<char>,
    answers: Seq<ServerAnswerView>,
) -> Map<(Seq<char>, Seq<char>), AnswerRecord>
    decreases answers.len(),
{
    if answers.len() == 0 {
        m
    } else {
        server_upsert(server_merged(m, compilation_id, answers.drop_last()), compilation_id, answers.last())
    }
}

/// The error of the first server answer whose revisions do not fit SQLite.
pub open spec fn server_revision_error(answers: Seq<ServerAnswerView>) -> Option<ErrorView>
    decreases answers.len(),
{
    if answers.len() == 0 {
        None
    } else if answers[0].client_revision > sqlite_max() {
        Some(too_large(answers[0].client_revision))
    } else if answers[0].server_revision > sqlite_max() {
        Some(too_large(answers[0].server_revision))
    } else {
        server_revision_error(answers.drop_first())
    }
}

/// Local answers with their texts as character sequences.
pub open spec fn local_views(answers: Seq<LocalAnswer>) -> Seq<LocalAnswerView> {
    answers.map_values(|a: LocalAnswer| a@)
}

/// The server answers with their texts as character sequences.
pub open spec fn server_views(answers: Seq<ServerAnswer>) -> Seq<ServerAnswerView> {
    answers.map_values(|a: ServerAnswer| a@)
}

/// The server returned an answer for the question.
pub open spec fn server_has(answers: Seq<ServerAnswerView>, q: Seq<char>) -> bool {
    exists|i: int| 0 <= i < answers.len() && answers[i].question_id == q
}

/// A local answer marked synchronised that the server's authoritative read
/// does not contain.
pub open spec fn stale_synced(
    m: Map<(Seq<char>, Seq<char>), AnswerRecord>,
    compilation_id: Seq<char>,
    answers: Seq<ServerAnswerView>,
    q: Seq<char>,
) -> bool {
    &&& m.dom().contains((compilation_id, q))
    &&& m[(compilation_id, q)].sync_state == AnswerSyncState::Synced
    &&& !server_has(answers, q)
}

/// Some outbox entry already carries this revision of the answer.
pub open spec fn queued_in(
    s: Seq<OutboxRecord>,
    compilation_id: Seq<char>,
    q: Seq<char>,
    client_revision: u64,
) -> bool {
    exists|i: int|
        0 <= i < s.len() && s[i].compilation_id == compilation_id && s[i].question_id == q
            && s[i].client_revision == client_revision
}

/// The answer row put back in line for sending.
pub open spec fn requeued(a: AnswerRecord) -> AnswerRecord {
    AnswerRecord {
        sync_state: AnswerSyncState::Pending,
        server_revision: None,
        last_error: None,
        ..a
    }
}

/// The answers after the stale synchronised rows were put back in line.
pub open spec fn requeued_answers(
    m: Map<(Seq<char>, Seq<char>), AnswerRecord>,
    compilation_id: Seq<char>,
    answers: Seq<ServerAnswerView>,
) -> Map<(Seq<char>, Seq<char>), AnswerRecord> {
    Map::new(
        |k: (Seq<char>, Seq<char>)| m.dom().contains(k),
        |k: (Seq<char>, Seq<char>)|
            if k.0 == compilation_id && stale_synced(m, compilation_id, answers, k.1) {
                requeued(m[k])
            } else {
                m[k]
            },
    )
}

/// `reconcile_server_answers` succeeded: the server's answers were merged
/// into the local ones, and every local answer marked synchronised that the
/// server does not have went back to pending, with a new outbox entry unless
/// one for its revision is already there. The new entries follow the
/// existing ones in ascending question order, each with a fresh random
/// request identifier.
pub open spec fn reconciled(
    before: StoreView,
    compilation_id: Seq<char>,
    answers: Seq<ServerAnswerView>,
    after: StoreView,
) -> bool {
    let m1 = server_merged(before.answers, compilation_id, answers);
    let n = before.outbox.len() as int;
    let added = after.outbox.skip(n);
    &&& after.path == before.path
    &&& after.state == before.state
    &&& after.questionnaires == before.questionnaires
    &&& after.answers == requeued_answers(m1, compilation_id, answers)
    &&& after.outbox.len() >= n
    &&& after.outbox.take(n) == before.outbox
    &&& after.last_sequence == before.last_sequence + added.len()
    &&& forall|j: int|
        0 <= j < added.len() ==> {
            let q = #[trigger] added[j].question_id;
            &&& stale_synced(m1, compilation_id, answers, q)
            &&& !queued_in(before.outbox, compilation_id, q, m1[(compilation_id, q)].client_revision)
            &&& added[j] == new_outbox_record(
                (before.last_sequence + 1 + j) as i64,
                added[j].request_id,
                compilation_id,
                q,
                m1[(compilation_id, q)].client_revision,
                m1[(compilation_id, q)].answer_json,
            )
            &&& uuid_v4_text(added[j].request_id)
        }
    &&& forall|q: Seq<char>|
        #[trigger] stale_synced(m1, compilation_id, answers, q) && !queued_in(
            before.outbox,
            compilation_id,
            q,
            m1[(compilation_id, q)].client_revision,
        ) ==> exists|j: int| 0 <= j < added.len() && added[j].question_id == q
    &&& forall|i: int, j: int|
        0 <= i < j < added.len() ==> text_before(added[i].question_id, added[j].question_id)
}

/// Reconciling has to queue at least one answer: some local answer marked
/// synchronised that the server does not have has no outbox entry for its
/// revision yet.
pub open spec fn needs_queue(v: StoreView, compilation_id: Seq<char>, answers: Seq<ServerAnswerView>) -> bool {
    let m1 = server_merged(v.answers, compilation_id, answers);
    exists|q: Seq<char>|
        #[trigger] stale_synced(m1, compilation_id, answers, q) && !queued_in(
            v.outbox,
            compilation_id,
            q,
            m1[(compilation_id, q)].client_revision,
        )
}

/// Reconciling has to queue at least two answers.
pub open spec fn needs_queue_twice(v: StoreView, compilation_id: Seq<char>, answers: Seq<ServerAnswerView>) -> bool {
    let m1 = server_merged(v.answers, compilation_id, answers);
    exists|q1: Seq<char>, q2: Seq<char>|
        q1 != q2 && #[trigger] stale_synced(m1, compilation_id, answers, q1) && !queued_in(
            v.outbox,
            compilation_id,
            q1,
            m1[(compilation_id, q1)].client_revision,
        ) && #[trigger] stale_synced(m1, compilation_id, answers, q2) && !queued_in(
            v.outbox,
            compilation_id,
            q2,
            m1[(compilation_id, q2)].client_revision,
        )
}

/// Reconciling has to queue an outbox entry for question `q`: its local
/// answer is marked synchronised, the server does not have it, and no entry
/// carries its revision yet.
pub open spec fn must_queue(v: StoreView, compilation_id: Seq<char>, answers: Seq<ServerAnswerView>, q: Seq<char>) -> bool {
    let m1 = server_merged(v.answers, compilation_id, answers);
    stale_synced(m1, compilation_id, answers, q) && !queued_in(
        v.outbox,
        compilation_id,
        q,
        m1[(compilation_id, q)].client_revision,
    )
}

/// More answers have to be queued than sequence numbers are left: some
/// distinct questions that must be queued outnumber them.
pub open spec fn queue_overflows(v: StoreView, compilation_id: Seq<char>, answers: Seq<ServerAnswerView>) -> bool {
    exists|qs: Seq<Seq<char>>|
        v.last_sequence + qs.len() > i64::MAX && (forall|i: int, j: int|
            0 <= i < j < qs.len() ==> qs[i] != qs[j]) && (forall|i: int|
            0 <= i < qs.len() ==> #[trigger] must_queue(v, compilation_id, answers, qs[i]))
}

/// Why reconciling the store `v` with the server's answers may fail with
/// `e`: a revision that does not fit SQLite or, when answers have to be
/// queued, the sequence numbers running out before all are queued or a fresh random request
/// identifier that is already taken (by an entry of the outbox, or by one
/// drawn for another answer in the same reconciliation).
pub open spec fn reconcile_failure(
    v: StoreView,
    compilation_id: Seq<char>,
    answers: Seq<ServerAnswerView>,
    e: ErrorView,
) -> bool {
    match server_revision_error(answers) {
        Some(x) => e == x,
        None => needs_queue(v, compilation_id, answers) && ((e == outbox_full() && queue_overflows(
            v,
            compilation_id,
            answers,
        )) || (e == duplicate_request_id()
            && exists|id: Seq<char>|
            uuid_v4_text(id) && (request_id_taken(v, id) || needs_queue_twice(v, compilation_id, answers)))),
    }
}

/// The answers of a checkpoint written one after the other.
pub open spec fn imported_answers(
    m: Map<(Seq<char>, Seq<char>), AnswerRecord>,
    compilation_id: Seq<char>,
    answers: Seq<LocalAnswerView>,
) -> Map<(Seq<char>, Seq<char>), AnswerRecord>
    decreases answers.len(),
{
    if answers.len() == 0 {
        m
    } else {
        imported_answers(m, compilation_id, answers.drop_last()).insert(
            (compilation_id, answers.last().question_id),
            answer_record(compilation_id, answers.last()),
        )
    }
}

/// The error of the first checkpoint answer whose revisions do not fit
/// SQLite.
pub open spec fn answer_revision_error(answers: Seq<LocalAnswerView>) -> Option<ErrorView>
    decreases answers.len(),
{
    if answers.len() == 0 {
        None
    } else if answers[0].client_revision > sqlite_max() {
        Some(too_large(answers[0].client_revision))
    } else if answers[0].server_revision matches Some(r) && r > sqlite_max() {
        Some(too_large(answers[0].server_revision->0))
    } else {
        answer_revision_error(answers.drop_first())
    }
}

/// An answer whose last change the server has not confirmed.
pub open spec fn unconfirmed(a: LocalAnswerView) -> bool {
    a.sync_state != AnswerSyncState::Synced
}

/// The answers of a checkpoint that importing it queues again: those the
/// server had not confirmed, in order.
pub open spec fn pending_answers(answers: Seq<LocalAnswerView>) -> Seq<LocalAnswerView> {
    answers.filter(|a: LocalAnswerView| unconfirmed(a))
}

/// Why importing a checkpoint into the store `v` may fail with `e`: a
/// revision that does not fit SQLite, or, when answers have to be queued,
/// the sequence numbers running out before all are queued or a fresh random
/// request identifier that is already taken (by an entry of the outbox, or by
/// one drawn for another answer of the checkpoint).
pub open spec fn import_failure(v: StoreView, answers: Seq<LocalAnswerView>, e: ErrorView) -> bool {
    ||| answer_revision_error(answers) == Some(e)
    ||| pending_answers(answers).len() > 0 && ((e == outbox_full() && v.last_sequence + pending_answers(
        answers,
    ).len() > i64::MAX) || (e == duplicate_request_id() && exists|id: Seq<char>|
        uuid_v4_text(id) && (request_id_taken(v, id) || pending_answers(answers).len() >= 2)))
}

/// `import_checkpoint` succeeded: the state of the earlier client version is
/// stored, its answers written for its compilation, and each answer the
/// server had not confirmed queued again, in order, each with a fresh random
/// request identifier.
pub open spec fn imported(
    before: StoreView,
    config: ClientConfig,
    snapshot: ClientSnapshot,
    answers: Seq<LocalAnswerView>,
    after: StoreView,
) -> bool {
    let c = snapshot.compilation_id@;
    let pending = answers.filter(|a: LocalAnswerView| unconfirmed(a));
    let n = before.outbox.len() as int;
    let added = after.outbox.skip(n);
    &&& after.path == before.path
    &&& after.state == Some((config, snapshot))
    &&& after.questionnaires == before.questionnaires
    &&& after.answers == imported_answers(before.answers, c, answers)
    &&& after.outbox.len() >= n
    &&& after.outbox.take(n) == before.outbox
    &&& added.len() == pending.len()
    &&& after.last_sequence == before.last_sequence + added.len()
    &&& forall|j: int|
        0 <= j < added.len() ==> #[trigger] added[j] == new_outbox_record(
            (before.last_sequence + 1 + j) as i64,
            added[j].request_id,
            c,
            pending[j].question_id,
            pending[j].client_revision,
            pending[j].answer,
        ) && uuid_v4_text(added[j].request_id)
}

proof fn lemma_filter_from<A>(s: Seq<A>, p: spec_fn(A) -> bool)
    ensures
        forall|i: int|
            0 <= i < s.filter(p).len() ==> exists|j: int|
                0 <= j < s.len() && #[trigger] s.filter(p)[i] == #[trigger] s[j],
    decreases s.len(),
{
    reveal(Seq::filter);
    if s.len() > 0 {
        let init = s.drop_last();
        lemma_filter_from(init, p);
        assert forall|i: int| 0 <= i < s.filter(p).len() implies exists|j: int|
            0 <= j < s.len() && #[trigger] s.filter(p)[i] == #[trigger] s[j] by {
            if i < init.filter(p).len() {
                let j = choose|j: int| 0 <= j < init.len() && init.filter(p)[i] == init[j];
                assert(s.filter(p)[i] == s[j]);
            } else {
                assert(s.filter(p)[i] == s[s.len() - 1]);
            }
        }
    }
}

proof fn lemma_filter_ordered(s: Seq<OutboxRecord>, p: spec_fn(OutboxRecord) -> bool, last: i64)
    requires
        outbox_ordered(s, last),
    ensures
        outbox_ordered(s.filter(p), last),
    decreases s.len(),
{
    reveal(Seq::filter);
    if s.len() > 0 {
        let init = s.drop_last();
        let x = s.last();
        let n = s.len() - 1;
        assert(outbox_ordered(init, last)) by {
            assert forall|i: int| 0 <= i < init.len() implies init[i] == s[i] by {}
        }
        lemma_filter_ordered(init, p, last);
        lemma_filter_from(init, p);
        let f = init.filter(p);
        if p(x) {
            let g = f.push(x);
            assert(s.filter(p) == g);
            assert forall|i: int| 0 <= i < f.len() implies #[trigger] f[i].sequence < x.sequence
                && f[i].request_id != x.request_id by {
                let j = choose|j: int| 0 <= j < init.len() && f[i] == init[j];
                assert(init[j] == s[j]);
                assert(s[n] == x);
            }
            assert forall|i: int, j: int| 0 <= i < j < g.len() implies g[i].sequence < g[j].sequence by {
                if j == f.len() {
                    assert(f[i].sequence < x.sequence);
                } else {
                    assert(g[i] == f[i] && g[j] == f[j]);
                }
            }
            assert forall|i: int, j: int|
                0 <= i < g.len() && 0 <= j < g.len() && i != j implies g[i].request_id
                != g[j].request_id by {
                if j == f.len() {
                    assert(f[i].request_id != x.request_id);
                } else if i == f.len() {
                    assert(f[j].request_id != x.request_id);
                } else {
                    assert(g[i] == f[i] && g[j] == f[j]);
                }
            }
            assert forall|i: int| 0 <= i < g.len() implies 1 <= #[trigger] g[i].sequence <= last by {
                if i < f.len() {
                    assert(g[i] == f[i]);
                }
            }
            assert forall|i: int| 0 <= i < g.len() implies #[trigger] g[i].client_revision
                <= sqlite_max() && g[i].attempts >= 0 by {
                if i < f.len() {
                    assert(g[i] == f[i]);
                }
            }
        } else {
            assert(s.filter(p) == f);
        }
    }
}

impl Database {
    /// The internal consistency of the rows.
    pub closed spec fn wf(&self) -> bool {
        &&& keys_unique(answer_records(self.answers@), answer_key())
        &&& keys_unique(cache_records(self.questionnaires@), cache_key())
        &&& store_consistent(self@)
    }

    /// A well-formed store is consistent (`store_consistent`): its outbox is
    /// in strictly ascending sequence order, with unique request
    /// identifiers, and every revision fits SQLite.
    pub proof fn lemma_consistent(&self)
        requires
            self.wf(),
        ensures
            store_consistent(self@),
    {
    }

    /// An empty store for the SQLite file at `path`.
    pub fn new(path: &str) -> (db: Self)
        ensures
            db.wf(),
            db@ == (StoreView {
                path: path@,
                state: None,
                answers: Map::empty(),
                outbox: Seq::empty(),
                last_sequence: 0,
                questionnaires: Map::empty(),
            }),
    {
        let db = Database {
            path: String::from_str(path),
            state: None,
            answers: Vec::new(),
            outbox: Vec::new(),
            last_sequence: 0,
            questionnaires: Vec::new(),
        };
        proof {
            lemma_table_empty(answer_records(db.answers@), answer_key());
            lemma_table_empty(cache_records(db.questionnaires@), cache_key());
            assert(outbox_records(db.outbox@) =~= Seq::<OutboxRecord>::empty());
        }
        db
    }

    /// The path of the SQLite file.
    pub fn path(&self) -> (p: &str)
        ensures
            p@ == self@.path,
    {
        self.path.as_str()
    }

    /// The stored client configuration and snapshot, if any.
    pub fn load_state(&self) -> (r: Option<(ClientConfig, ClientSnapshot)>)
        ensures
            r == self@.state,
    {
        match &self.state {
            Some((config, snapshot)) => Some((config.clone(), snapshot.clone())),
            None => None,
        }
    }

    /// Stores the client configuration and snapshot.
    pub fn save_state(&mut self, config: &ClientConfig, snapshot: &ClientSnapshot)
        requires
            old(self).wf(),
        ensures
            final(self).wf(),
            final(self)@ == (StoreView { state: Some((*config, *snapshot)), ..old(self)@ }),
    {
        self.state = Some((config.clone(), snapshot.clone()));
    }

    /// The position of the answer row with the key, if there is one.
    fn find_answer(&self, compilation_id: &String, question_id: &String) -> (r: Option<usize>)
        requires
            self.wf(),
        ensures
            match r {
                Some(i) => i < self.answers@.len() && self.answers@[i as int].compilation_id@
                    == compilation_id@ && self.answers@[i as int].question_id@ == question_id@,
                None => !self@.answers.dom().contains((compilation_id@, question_id@)),
            },
    {
        let n: usize = self.answers.len();
        let mut i: usize = 0;
        while i < n
            invariant
                n == self.answers@.len(),
                i <= n,
                forall|j: int|
                    0 <= j < i ==> answer_key()(answer_records(self.answers@)[j]) != (
                        compilation_id@,
                        question_id@,
                    ),
            decreases n - i,
        {
            if self.answers[i].compilation_id == *compilation_id && self.answers[i].question_id
                == *question_id {
                return Some(i);
            }
            i = i + 1;
        }
        proof {
            if self@.answers.dom().contains((compilation_id@, question_id@)) {
                let rows = answer_records(self.answers@);
                let j = choose|j: int|
                    0 <= j < rows.len() && answer_key()(rows[j]) == (compilation_id@, question_id@);
                assert(false);
            }
        }
        None
    }

    /// Writes the answer row with the row's key, inserting it or replacing the
    /// row with the same key.
    fn put_answer_row(&mut self, row: AnswerRow)
        requires
            old(self).wf(),
            row.client_revision <= sqlite_max(),
            row.server_revision is Some ==> row.server_revision->0 <= sqlite_max(),
        ensures
            final(self).wf(),
            final(self)@ == with_answer(old(self)@, row@),
    {
        let ghost before = answer_records(self.answers@);
        match self.find_answer(&row.compilation_id, &row.question_id) {
            Some(i) => {
                let ghost rec = row@;
                self.answers.set(i, row);
                proof {
                    assert(answer_records(self.answers@) =~= before.update(i as int, rec));
                    lemma_table_update(before, answer_key(), i as int, rec);
                }
            },
            None => {
                let ghost rec = row@;
                self.answers.push(row);
                proof {
                    assert(answer_records(self.answers@) =~= before.push(rec));
                    lemma_table_push(before, answer_key(), rec);
                }
            },
        }
        proof {
            let v = self@;
            assert forall|k: (Seq<char>, Seq<char>)| #[trigger] v.answers.dom().contains(k) implies {
                let a = v.answers[k];
                &&& (a.compilation_id, a.question_id) == k
                &&& a.client_revision <= sqlite_max()
                &&& (a.server_revision is Some ==> a.server_revision->0 <= sqlite_max())
            } by {
                if k != (row@.compilation_id, row@.question_id) {
                    assert(old(self)@.answers.dom().contains(k));
                }
            }
        }
    }

    /// `insert_local_answer`: upserts the answer row of a compilation.
    fn insert_local_answer(&mut self, compilation_id: &str, answer: &LocalAnswer) -> (r: Result<
        (),
        AppError,
    >)
        requires
            old(self).wf(),
        ensures
            final(self).wf(),
            applied(r, answer_upsert(old(self)@, compilation_id@, answer@), old(self)@, final(self)@),
    {
        if answer.client_revision > 0x7fff_ffff_ffff_ffff {
            return Err(too_large_error(answer.client_revision));
        }
        if let Some(server_revision) = answer.server_revision {
            if server_revision > 0x7fff_ffff_ffff_ffff {
                return Err(too_large_error(server_revision));
            }
        }
        let row = AnswerRow {
            compilation_id: String::from_str(compilation_id),
            question_id: answer.question_id.clone(),
            client_revision: answer.client_revision,
            server_revision: answer.server_revision,
            answer_json: answer.answer.clone(),
            sync_state: answer.sync_state,
            last_error: answer.last_error.clone(),
            updated_at: now(),
        };
        proof {
            assert(row@ == answer_record(compilation_id@, answer@));
        }
        self.put_answer_row(row);
        Ok(())
    }

    /// Whether some outbox row carries the request identifier.
    fn request_id_in_outbox(&self, request_id: &String) -> (r: bool)
        requires
            self.wf(),
        ensures
            r == request_id_taken(self@, request_id@),
    {
        let n: usize = self.outbox.len();
        let mut i: usize = 0;
        while i < n
            invariant
                n == self.outbox@.len(),
                i <= n,
                forall|j: int| 0 <= j < i ==> self.outbox@[j].request_id@ != request_id@,
            decreases n - i,
        {
            if self.outbox[i].request_id == *request_id {
                proof {
                    assert(self@.outbox[i as int].request_id == request_id@);
                }
                return true;
            }
            i = i + 1;
        }
        proof {
            if request_id_taken(self@, request_id@) {
                let j = choose|j: int|
                    0 <= j < self@.outbox.len() && self@.outbox[j].request_id == request_id@;
                assert(self.outbox@[j].request_id@ == request_id@);
            }
        }
        false
    }

    /// `insert_outbox`: appends a pending save-answer request.
    fn insert_outbox(
        &mut self,
        request_id: &str,
        compilation_id: &str,
        question_id: &str,
        client_revision: u64,
        answer_json: &str,
    ) -> (r: Result<(), AppError>)
        requires
            old(self).wf(),
        ensures
            final(self).wf(),
            applied(
                r,
                outbox_insert(
                    old(self)@,
                    request_id@,
                    compilation_id@,
                    question_id@,
                    client_revision,
                    answer_json@,
                ),
                old(self)@,
                final(self)@,
            ),
    {
        if client_revision > 0x7fff_ffff_ffff_ffff {
            return Err(too_large_error(client_revision));
        }
        if self.last_sequence == i64::MAX {
            return Err(outbox_full_error());
        }
        let id = String::from_str(request_id);
        if self.request_id_in_outbox(&id) {
            return Err(duplicate_request_id_error());
        }
        let timestamp = now();
        let row = OutboxRow {
            sequence: self.last_sequence + 1,
            request_id: id,
            compilation_id: String::from_str(compilation_id),
            question_id: String::from_str(question_id),
            client_revision,
            command: String::from_str("compilazione.save-answer"),
            answer_json: String::from_str(answer_json),
            status: OutboxStatus::Pending,
            attempts: 0,
            last_error: None,
            created_at: timestamp.clone(),
            updated_at: timestamp,
        };
        let ghost before = outbox_records(self.outbox@);
        self.last_sequence = self.last_sequence + 1;
        self.outbox.push(row);
        proof {
            assert(outbox_records(self.outbox@) =~= before.push(row@));
            let s = self@.outbox;
            let n = before.len() as int;
            assert forall|i: int, j: int|
                0 <= i < s.len() && 0 <= j < s.len() && i != j implies s[i].request_id
                != s[j].request_id by {
                if i == n {
                    assert(s[j] == before[j]);
                } else if j == n {
                    assert(s[i] == before[i]);
                }
            }
        }
        Ok(())
    }

    /// `queue_answer`: stores a changed answer and its outbox entry in one
    /// transaction; on error nothing changes.
    pub fn queue_answer(&mut self, compilation_id: &str, answer: &LocalAnswer, request_id: &str) -> (r:
        Result<(), AppError>)
        requires
            old(self).wf(),
        ensures
            final(self).wf(),
            applied(r, queued(old(self)@, compilation_id@, answer@, request_id@), old(self)@, final(self)@),
    {
        if answer.client_revision > 0x7fff_ffff_ffff_ffff {
            return Err(too_large_error(answer.client_revision));
        }
        if let Some(server_revision) = answer.server_revision {
            if server_revision > 0x7fff_ffff_ffff_ffff {
                return Err(too_large_error(server_revision));
            }
        }
        if self.last_sequence == i64::MAX {
            return Err(outbox_full_error());
        }
        let id = String::from_str(request_id);
        if self.request_id_in_outbox(&id) {
            return Err(duplicate_request_id_error());
        }
        let r1 = self.insert_local_answer(compilation_id, answer);
        proof {
            assert(r1 is Ok);
            assert(request_id_taken(self@, request_id@) == request_id_taken(old(self)@, request_id@));
        }
        let r2 = self.insert_outbox(
            request_id,
            compilation_id,
            answer.question_id.as_str(),
            answer.client_revision,
            answer.answer.as_str(),
        );
        proof {
            assert(r2 is Ok);
        }
        Ok(())
    }

    /// The row after an outbox update.
    fn updated_outbox_row(op: &OutboxUpdate, row: &OutboxRow) -> (r: OutboxRow)
        ensures
            r@ == outbox_updated(*op, row@),
    {
        match op {
            OutboxUpdate::InFlight(sequence) => {
                if row.sequence == *sequence {
                    let mut r = row.clone();
                    r.status = OutboxStatus::InFlight;
                    if r.attempts < i64::MAX {
                        r.attempts = r.attempts + 1;
                    }
                    r.updated_at = now();
                    r
                } else {
                    row.clone()
                }
            },
            OutboxUpdate::Failed(sequence, message, retryable) => {
                if row.sequence == *sequence {
                    let mut r = row.clone();
                    r.status = if *retryable {
                        OutboxStatus::Pending
                    } else {
                        OutboxStatus::Error
                    };
                    r.last_error = Some(message.clone());
                    r.updated_at = now();
                    r
                } else {
                    row.clone()
                }
            },
            OutboxUpdate::RetryErrors => {
                if row.status == OutboxStatus::Error {
                    let mut r = row.clone();
                    r.status = OutboxStatus::Pending;
                    r.last_error = None;
                    r.updated_at = now();
                    r
                } else {
                    row.clone()
                }
            },
            OutboxUpdate::Rebind(from, to) => {
                if row.compilation_id == *from {
                    let mut r = row.clone();
                    r.compilation_id = to.clone();
                    r.updated_at = now();
                    r
                } else {
                    row.clone()
                }
            },
            OutboxUpdate::Recover => {
                if row.status == OutboxStatus::InFlight {
                    let mut r = row.clone();
                    r.status = OutboxStatus::Pending;
                    r
                } else {
                    row.clone()
                }
            },
        }
    }

    /// Applies an update to every outbox row.
    fn map_outbox(&mut self, op: &OutboxUpdate)
        requires
            old(self).wf(),
        ensures
            final(self).wf(),
            final(self)@ == outbox_map(old(self)@, *op),
    {
        let ghost before = outbox_records(self.outbox@);
        let ghost f = outbox_update_fn(*op);
        let mut updated: Vec<OutboxRow> = Vec::new();
        let n: usize = self.outbox.len();
        for i in 0..n
            invariant
                n == self.outbox@.len(),
                before == outbox_records(self.outbox@),
                f == outbox_update_fn(*op),
                outbox_records(updated@) == before.take(i as int).map_values(f),
        {
            let row = Self::updated_outbox_row(op, &self.outbox[i]);
            let ghost prev = updated@;
            updated.push(row);
            proof {
                assert(before[i as int] == self.outbox@[i as int]@);
                assert(row@ == f(before[i as int]));
                assert(before.take(i + 1) =~= before.take(i as int).push(before[i as int]));
                assert(outbox_records(updated@) =~= outbox_records(prev).push(row@));
                assert(before.take(i + 1).map_values(f) =~= before.take(i as int).map_values(f).push(f(before[i as int])));
            }
        }
        proof {
            assert(before.take(n as int) =~= before);
            let s = outbox_records(updated@);
            assert forall|i: int| 0 <= i < s.len() implies s[i].sequence == before[i].sequence && s[i].request_id == before[i].request_id && s[i].client_revision == before[i].client_revision && s[i].attempts >= before[i].attempts by {
                assert(s[i] == outbox_updated(*op, before[i]));
            }
            assert(outbox_ordered(s, self.last_sequence));
        }
        self.outbox = updated;
    }

    fn keeps_outbox_row(f: &OutboxFilter, row: &OutboxRow) -> (r: bool)
        ensures
            r == outbox_kept(*f, row@),
    {
        match f {
            OutboxFilter::NotSequence(sequence) => row.sequence != *sequence,
            OutboxFilter::NotCompilation(c) => !(row.compilation_id == *c),
        }
    }

    /// Deletes the outbox rows that the filter does not keep.
    fn filter_outbox(&mut self, f: &OutboxFilter)
        requires
            old(self).wf(),
        ensures
            final(self).wf(),
            final(self)@ == outbox_filter(old(self)@, *f),
    {
        let ghost before = outbox_records(self.outbox@);
        let ghost p = outbox_keep_fn(*f);
        let mut kept: Vec<OutboxRow> = Vec::new();
        let n: usize = self.outbox.len();
        for i in 0..n
            invariant
                n == self.outbox@.len(),
                before == outbox_records(self.outbox@),
                p == outbox_keep_fn(*f),
                outbox_records(kept@) == before.take(i as int).filter(p),
        {
            let ghost prev = kept@;
            proof {
                reveal(Seq::filter);
                assert(before[i as int] == self.outbox@[i as int]@);
                assert(before.take(i + 1).drop_last() =~= before.take(i as int));
                assert(before.take(i + 1).last() == before[i as int]);
            }
            if Self::keeps_outbox_row(f, &self.outbox[i]) {
                let row = self.outbox[i].clone();
                kept.push(row);
                proof {
                    assert(p(before[i as int]));
                    assert(outbox_records(kept@) =~= outbox_records(prev).push(before[i as int]));
                }
            } else {
                proof {
                    assert(!p(before[i as int]));
                    assert(outbox_records(kept@) =~= outbox_records(prev));
                }
            }
        }
        proof {
            assert(before.take(n as int) =~= before);
            lemma_filter_ordered(before, p, self.last_sequence);
        }
        self.outbox = kept;
    }

    /// The entry handed out for an outbox row.
    fn entry_of_row(row: &OutboxRow) -> (e: OutboxEntry)
        ensures
            e@ == entry_of(row@),
    {
        OutboxEntry {
            sequence: row.sequence,
            request_id: row.request_id.clone(),
            compilation_id: row.compilation_id.clone(),
            question_id: row.question_id.clone(),
            client_revision: row.client_revision,
            command: row.command.clone(),
            payload: save_answer_data(
                row.compilation_id.as_str(),
                row.question_id.as_str(),
                row.client_revision,
                row.answer_json.as_str(),
            ),
        }
    }

    /// `pending_outbox`: at most `limit` entries that may be sent now, in
    /// sequence order. Entries behind a failed one wait until the failed one
    /// is retried.
    pub fn pending_outbox(&self, limit: usize) -> (entries: Vec<OutboxEntry>)
        requires
            self.wf(),
        ensures
            entries@.map_values(|e: OutboxEntry| e@) == sendable(self@.outbox).take(
                min_len(limit, sendable(self@.outbox).len()),
            ).map_values(|r: OutboxRecord| entry_of(r)),
            forall|a: int, b: int| 0 <= a < b < entries@.len() ==> entries@[a].sequence < entries@[b].sequence,
    {
        let ghost recs = outbox_records(self.outbox@);
        let ghost mut collected: Seq<OutboxRecord> = Seq::empty();
        let mut entries: Vec<OutboxEntry> = Vec::new();
        let n: usize = self.outbox.len();
        let mut i: usize = 0;
        let mut blocked = false;
        proof {
            assert(recs.skip(0) =~= recs);
            assert(collected + sendable(recs.skip(0)) =~= sendable(recs));
        }
        while i < n && entries.len() < limit && !blocked
            invariant
                n == recs.len(),
                recs == outbox_records(self.outbox@),
                i <= n,
                entries@.len() == collected.len(),
                entries@.len() <= limit,
                entries@.map_values(|e: OutboxEntry| e@) == collected.map_values(|r: OutboxRecord| entry_of(r)),
                sendable(recs) == collected + sendable(recs.skip(i as int)),
                blocked ==> sendable(recs.skip(i as int)) == Seq::<OutboxRecord>::empty(),
            decreases n - i, (if blocked { 0int } else { 1int }),
        {
            proof {
                assert(recs.skip(i as int)[0] == recs[i as int]);
                assert(recs.skip(i as int).drop_first() =~= recs.skip(i + 1));
            }
            let status = self.outbox[i].status;
            if status == OutboxStatus::Error {
                blocked = true;
            } else {
                if status == OutboxStatus::Pending {
                    let entry = Self::entry_of_row(&self.outbox[i]);
                    let ghost prev = entries@;
                    entries.push(entry);
                    proof {
                        let r = recs[i as int];
                        assert(collected + sendable(recs.skip(i as int)) =~= collected.push(r) + sendable(recs.skip(i + 1)));
                        assert(entries@.map_values(|e: OutboxEntry| e@) =~= prev.map_values(|e: OutboxEntry| e@).push(entry_of(r)));
                        assert(collected.push(r).map_values(|r: OutboxRecord| entry_of(r)) =~= collected.map_values(|r: OutboxRecord| entry_of(r)).push(entry_of(r)));
                        collected = collected.push(r);
                    }
                }
                i = i + 1;
            }
        }
        proof {
            let all = sendable(recs);
            if entries@.len() == limit && !blocked && i < n {
                assert(all.take(min_len(limit, all.len())) =~= collected);
            } else {
                if !blocked {
                    assert(recs.skip(i as int) =~= Seq::<OutboxRecord>::empty());
                }
                assert(all =~= collected);
                assert(all.take(min_len(limit, all.len())) =~= collected);
            }
            crate::laws::lemma_sent_in_sequence_order(recs, self@.last_sequence);
            let t = all.take(min_len(limit, all.len()));
            assert forall|a: int, b: int| 0 <= a < b < entries@.len() implies entries@[a].sequence
                < entries@[b].sequence by {
                assert(entries@.map_values(|e: OutboxEntry| e@)[a] == t.map_values(|r: OutboxRecord| entry_of(r))[a]);
                assert(entries@.map_values(|e: OutboxEntry| e@)[b] == t.map_values(|r: OutboxRecord| entry_of(r))[b]);
                assert(t[a] == all[a] && t[b] == all[b]);
            }
        }
        entries
    }

    /// `mark_outbox_in_flight`: the entry with the sequence is being sent;
    /// its attempts are counted (up to the largest SQLite integer).
    pub fn mark_outbox_in_flight(&mut self, sequence: i64)
        requires
            old(self).wf(),
        ensures
            final(self).wf(),
            final(self)@ == marked_in_flight(old(self)@, sequence),
    {
        self.map_outbox(&OutboxUpdate::InFlight(sequence));
        proof {
            assert(self@.outbox =~= marked_in_flight(old(self)@, sequence).outbox);
        }
    }

    /// `outbox_counts`: the number of pending or in-flight entries and the
    /// number of failed entries.
    pub fn outbox_counts(&self) -> (counts: (u64, u64))
        requires
            self.wf(),
        ensures
            counts.0 == count_status(self@.outbox, false),
            counts.1 == count_status(self@.outbox, true),
    {
        let ghost recs = outbox_records(self.outbox@);
        let n: usize = self.outbox.len();
        let mut pending: u64 = 0;
        let mut errors: u64 = 0;
        for i in 0..n
            invariant
                n == recs.len(),
                recs == outbox_records(self.outbox@),
                pending == count_status(recs.take(i as int), false),
                errors == count_status(recs.take(i as int), true),
                pending + errors == i,
        {
            proof {
                assert(recs.take(i + 1).drop_last() =~= recs.take(i as int));
            }
            if self.outbox[i].status == OutboxStatus::Error {
                errors = errors + 1;
            } else {
                pending = pending + 1;
            }
        }
        proof {
            assert(recs.take(n as int) =~= recs);
        }
        (pending, errors)
    }

    /// `acknowledge_outbox`: the server stored the entry's revision with the
    /// given server revision. In one transaction the entry leaves the outbox
    /// and the answer takes the server revision; the answer becomes
    /// synchronised when its revision is still the one sent.
    pub fn acknowledge_outbox(&mut self, entry: &OutboxEntry, response: &SaveAnswerResult) -> (r:
        Result<(), AppError>)
        requires
            old(self).wf(),
        ensures
            final(self).wf(),
            applied(r, acknowledged(old(self)@, entry@, response.server_revision), old(self)@, final(self)@),
    {
        if entry.client_revision > 0x7fff_ffff_ffff_ffff {
            return Err(too_large_error(entry.client_revision));
        }
        if response.server_revision > 0x7fff_ffff_ffff_ffff {
            return Err(too_large_error(response.server_revision));
        }
        self.filter_outbox(&OutboxFilter::NotSequence(entry.sequence));
        let ghost mid = self@;
        proof {
            assert(outbox_keep_fn(OutboxFilter::NotSequence(entry.sequence)) =~= (|r: OutboxRecord| r.sequence != entry.sequence));
        }
        let ghost k = (entry.compilation_id@, entry.question_id@);
        match self.find_answer(&entry.compilation_id, &entry.question_id) {
            Some(i) => {
                let mut row = self.answers[i].clone();
                proof {
                    lemma_table_index(answer_records(self.answers@), answer_key(), i as int);
                    assert(row@ == mid.answers[k]);
                }
                row.server_revision = Some(response.server_revision);
                if row.client_revision == entry.client_revision {
                    row.sync_state = AnswerSyncState::Synced;
                    row.last_error = None;
                }
                row.updated_at = now();
                proof {
                    assert(row@ == acked_answer(mid.answers[k], entry.client_revision, response.server_revision));
                }
                self.put_answer_row(row);
            },
            None => {},
        }
        proof {
            assert(self@ == acknowledged(old(self)@, entry@, response.server_revision)->Ok_0);
        }
        Ok(())
    }

    /// `fail_outbox`: sending the entry failed with `message`. The entry
    /// becomes pending again when the failure is retryable and failed
    /// otherwise; the answer follows when its revision is still the one sent.
    pub fn fail_outbox(&mut self, entry: &OutboxEntry, message: &str, retryable: bool) -> (r: Result<
        (),
        AppError,
    >)
        requires
            old(self).wf(),
        ensures
            final(self).wf(),
            applied(r, failed(old(self)@, entry@, message@, retryable), old(self)@, final(self)@),
    {
        if entry.client_revision > 0x7fff_ffff_ffff_ffff {
            return Err(too_large_error(entry.client_revision));
        }
        let text = String::from_str(message);
        self.map_outbox(&OutboxUpdate::Failed(entry.sequence, text.clone(), retryable));
        let ghost mid = self@;
        let ghost k = (entry.compilation_id@, entry.question_id@);
        match self.find_answer(&entry.compilation_id, &entry.question_id) {
            Some(i) => {
                proof {
                    lemma_table_index(answer_records(self.answers@), answer_key(), i as int);
                }
                if self.answers[i].client_revision == entry.client_revision {
                    let mut row = self.answers[i].clone();
                    row.sync_state = if retryable {
                        AnswerSyncState::Pending
                    } else {
                        AnswerSyncState::Error
                    };
                    row.last_error = Some(text);
                    row.updated_at = now();
                    proof {
                        assert(row@ == failed_answer(mid.answers[k], entry.client_revision, message@, retryable));
                    }
                    self.put_answer_row(row);
                } else {
                    proof {
                        assert(mid.answers.insert(k, failed_answer(mid.answers[k], entry.client_revision, message@, retryable)) =~= mid.answers);
                    }
                }
            },
            None => {},
        }
        proof {
            assert(self@.outbox =~= failed(old(self)@, entry@, message@, retryable)->Ok_0.outbox);
            assert(self@ == failed(old(self)@, entry@, message@, retryable)->Ok_0);
        }
        Ok(())
    }

    /// `retry_outbox_errors`: failed entries and failed answers become
    /// pending again, without their error.
    pub fn retry_outbox_errors(&mut self)
        requires
            old(self).wf(),
        ensures
            final(self).wf(),
            final(self)@ == retried(old(self)@),
    {
        self.map_outbox(&OutboxUpdate::RetryErrors);
        let ghost before = answer_records(self.answers@);
        let ghost f = |a: AnswerRecord| retried_answer(a);
        let mut rows: Vec<AnswerRow> = Vec::new();
        let n: usize = self.answers.len();
        for i in 0..n
            invariant
                n == self.answers@.len(),
                before == answer_records(self.answers@),
                f == (|a: AnswerRecord| retried_answer(a)),
                answer_records(rows@) == before.take(i as int).map_values(f),
        {
            let mut row = self.answers[i].clone();
            if row.sync_state == AnswerSyncState::Error {
                row.sync_state = AnswerSyncState::Pending;
                row.last_error = None;
                row.updated_at = now();
            }
            let ghost prev = rows@;
            proof {
                assert(before[i as int] == self.answers@[i as int]@);
                assert(row@ == f(before[i as int]));
            }
            rows.push(row);
            proof {
                assert(before.take(i + 1) =~= before.take(i as int).push(before[i as int]));
                assert(answer_records(rows@) =~= answer_records(prev).push(row@));
                assert(before.take(i + 1).map_values(f) =~= before.take(i as int).map_values(f).push(f(before[i as int])));
            }
        }
        proof {
            assert(before.take(n as int) =~= before);
            assert forall|r: AnswerRecord| #[trigger] answer_key()(f(r)) == answer_key()(r) by {}
            lemma_table_map(before, answer_key(), f);
        }
        self.answers = rows;
        proof {
            assert(self@.outbox =~= retried(old(self)@).outbox);
            assert(self@.answers =~= retried(old(self)@).answers);
        }
    }

    /// `load_answers`: the answers of a compilation.
    pub fn load_answers(&self, compilation_id: &str) -> (answers: Vec<LocalAnswer>)
        requires
            self.wf(),
        ensures
            answers_loaded(self@.answers, compilation_id@, answers@.map_values(|a: LocalAnswer| a@)),
    {
        let c = String::from_str(compilation_id);
        let ghost recs = answer_records(self.answers@);
        let ghost m = self@.answers;
        let mut answers: Vec<LocalAnswer> = Vec::new();
        let n: usize = self.answers.len();
        for i in 0..n
            invariant
                n == self.answers@.len(),
                recs == answer_records(self.answers@),
                m == table(recs, answer_key()),
                keys_unique(recs, answer_key()),
                c@ == compilation_id@,
                forall|j: int|
                    0 <= j < answers@.len() ==> exists|t: int|
                        0 <= t < i && recs[t].compilation_id == c@ && #[trigger] answers@[j]@
                            == local_of(recs[t]),
                forall|t: int|
                    0 <= t < i && #[trigger] recs[t].compilation_id == c@ ==> exists|j: int|
                        0 <= j < answers@.len() && answers@[j]@ == local_of(recs[t]),
                forall|a: int, b: int|
                    0 <= a < answers@.len() && 0 <= b < answers@.len() && a != b
                        ==> answers@[a].question_id@ != answers@[b].question_id@,
        {
            if self.answers[i].compilation_id == c {
                let row = &self.answers[i];
                let answer = LocalAnswer {
                    question_id: row.question_id.clone(),
                    client_revision: row.client_revision,
                    server_revision: row.server_revision,
                    answer: row.answer_json.clone(),
                    sync_state: row.sync_state,
                    last_error: row.last_error.clone(),
                };
                let ghost prev = answers@;
                proof {
                    assert(recs[i as int] == self.answers@[i as int]@);
                    assert(answer@ == local_of(recs[i as int]));
                    assert forall|j: int| 0 <= j < prev.len() implies prev[j].question_id@ != answer.question_id@ by {
                        let t = choose|t: int|
                            0 <= t < i && recs[t].compilation_id == c@ && prev[j]@ == local_of(recs[t]);
                        assert(answer_key()(recs[t]) != answer_key()(recs[i as int]));
                    }
                }
                answers.push(answer);
                proof {
                    assert forall|j: int| 0 <= j < answers@.len() implies exists|t: int|
                        0 <= t < i + 1 && recs[t].compilation_id == c@ && #[trigger] answers@[j]@
                            == local_of(recs[t]) by {
                        if j < prev.len() {
                            assert(answers@[j] == prev[j]);
                        } else {
                            assert(answers@[j] == answer);
                        }
                    }
                    assert forall|t: int|
                        0 <= t < i + 1 && #[trigger] recs[t].compilation_id == c@ implies exists|j: int|
                            0 <= j < answers@.len() && answers@[j]@ == local_of(recs[t]) by {
                        if t < i {
                            let j = choose|j: int| 0 <= j < prev.len() && prev[j]@ == local_of(recs[t]);
                            assert(answers@[j] == prev[j]);
                        } else {
                            assert(answers@[prev.len() as int] == answer);
                        }
                    }
                }
            }
        }
        proof {
            let loaded = answers@.map_values(|a: LocalAnswer| a@);
            assert forall|i: int| 0 <= i < loaded.len() implies m.dom().contains((compilation_id@, #[trigger] loaded[i].question_id))
                && loaded[i] == local_of(m[(compilation_id@, loaded[i].question_id)]) by {
                let t = choose|t: int|
                    0 <= t < n && recs[t].compilation_id == c@ && answers@[i]@ == local_of(recs[t]);
                lemma_table_index(recs, answer_key(), t);
            }
            assert forall|q: Seq<char>| #[trigger] m.dom().contains((compilation_id@, q)) implies exists|i: int|
                0 <= i < loaded.len() && #[trigger] loaded[i].question_id == q by {
                let t = choose|t: int| 0 <= t < recs.len() && answer_key()(recs[t]) == (compilation_id@, q);
                assert(recs[t].compilation_id == c@);
                let j = choose|j: int| 0 <= j < answers@.len() && answers@[j]@ == local_of(recs[t]);
                assert(loaded[j].question_id == q);
            }
        }
        answers
    }

    /// Deletes the answer rows that the filter does not keep.
    fn retain_answers(&mut self, f: &AnswerFilter)
        requires
            old(self).wf(),
        ensures
            final(self).wf(),
            final(self)@ == (StoreView {
                answers: restrict(old(self)@.answers, answer_keep_fn(*f, old(self)@.answers)),
                ..old(self)@
            }),
    {
        let ghost before = answer_records(self.answers@);
        let ghost m = self@.answers;
        let ghost keep = answer_keep_fn(*f, m);
        let ghost p = |r: AnswerRecord| keep(answer_key()(r));
        let mut kept: Vec<AnswerRow> = Vec::new();
        let n: usize = self.answers.len();
        for i in 0..n
            invariant
                n == self.answers@.len(),
                before == answer_records(self.answers@),
                m == self@.answers,
                self.wf(),
                keep == answer_keep_fn(*f, m),
                p == (|r: AnswerRecord| keep(answer_key()(r))),
                answer_records(kept@) == before.take(i as int).filter(p),
        {
            let ghost prev = kept@;
            proof {
                reveal(Seq::filter);
                assert(before[i as int] == self.answers@[i as int]@);
                assert(before.take(i + 1).drop_last() =~= before.take(i as int));
                assert(before.take(i + 1).last() == before[i as int]);
            }
            let keeps = match f {
                AnswerFilter::NotCompilation(c) => !(self.answers[i].compilation_id == *c),
                AnswerFilter::NotReplacedBy(from, to) => {
                    if self.answers[i].compilation_id == *to {
                        match self.find_answer(from, &self.answers[i].question_id) {
                            Some(j) => {
                                proof {
                                    lemma_table_index(before, answer_key(), j as int);
                                }
                                false
                            },
                            None => true,
                        }
                    } else {
                        true
                    }
                },
            };
            if keeps {
                let row = self.answers[i].clone();
                kept.push(row);
                proof {
                    assert(p(before[i as int]));
                    assert(answer_records(kept@) =~= answer_records(prev).push(before[i as int]));
                }
            } else {
                proof {
                    assert(!p(before[i as int]));
                    assert(answer_records(kept@) =~= answer_records(prev));
                }
            }
        }
        proof {
            assert(before.take(n as int) =~= before);
            assert forall|r: AnswerRecord| #[trigger] p(r) == keep(answer_key()(r)) by {}
            lemma_table_filter(before, answer_key(), p, keep);
        }
        self.answers = kept;
        proof {
            let v = self@;
            assert forall|k: (Seq<char>, Seq<char>)| #[trigger] v.answers.dom().contains(k) implies old(self)@.answers.dom().contains(k) && v.answers[k] == old(self)@.answers[k] by {}
        }
    }

    /// The position of the cache row of a compilation, if there is one.
    fn find_cache(&self, compilation_id: &String) -> (r: Option<usize>)
        requires
            self.wf(),
        ensures
            match r {
                Some(i) => i < self.questionnaires@.len() && self.questionnaires@[i as int].compilation_id@
                    == compilation_id@,
                None => !self@.questionnaires.dom().contains(compilation_id@),
            },
    {
        let n: usize = self.questionnaires.len();
        let mut i: usize = 0;
        while i < n
            invariant
                n == self.questionnaires@.len(),
                i <= n,
                forall|j: int|
                    0 <= j < i ==> cache_key()(cache_records(self.questionnaires@)[j]) != compilation_id@,
            decreases n - i,
        {
            if self.questionnaires[i].compilation_id == *compilation_id {
                return Some(i);
            }
            i = i + 1;
        }
        proof {
            if self@.questionnaires.dom().contains(compilation_id@) {
                let rows = cache_records(self.questionnaires@);
                let j = choose|j: int| 0 <= j < rows.len() && cache_key()(rows[j]) == compilation_id@;
                assert(false);
            }
        }
        None
    }

    /// Writes the cache row with the row's compilation, inserting it or
    /// replacing the row of the same compilation.
    fn put_cache_row(&mut self, row: CachedQuestionnaire)
        requires
            old(self).wf(),
            row.questionnaire.revision <= sqlite_max(),
        ensures
            final(self).wf(),
            final(self)@ == (StoreView {
                questionnaires: old(self)@.questionnaires.insert(row@.compilation_id, row@),
                ..old(self)@
            }),
    {
        let ghost before = cache_records(self.questionnaires@);
        let ghost rec = row@;
        match self.find_cache(&row.compilation_id) {
            Some(i) => {
                self.questionnaires.set(i, row);
                proof {
                    assert(cache_records(self.questionnaires@) =~= before.update(i as int, rec));
                    lemma_table_update(before, cache_key(), i as int, rec);
                }
            },
            None => {
                self.questionnaires.push(row);
                proof {
                    assert(cache_records(self.questionnaires@) =~= before.push(rec));
                    lemma_table_push(before, cache_key(), rec);
                }
            },
        }
        proof {
            let v = self@;
            assert forall|k: Seq<char>| #[trigger] v.questionnaires.dom().contains(k) implies v.questionnaires[k].compilation_id == k
                && v.questionnaires[k].questionnaire.revision <= sqlite_max() by {
                if k != rec.compilation_id {
                    assert(old(self)@.questionnaires.dom().contains(k));
                }
            }
        }
    }

    /// Deletes the cache row of a compilation, if there is one.
    fn remove_cache(&mut self, compilation_id: &String)
        requires
            old(self).wf(),
        ensures
            final(self).wf(),
            final(self)@ == (StoreView {
                questionnaires: old(self)@.questionnaires.remove(compilation_id@),
                ..old(self)@
            }),
    {
        let ghost before = cache_records(self.questionnaires@);
        match self.find_cache(compilation_id) {
            Some(i) => {
                let _ = self.questionnaires.remove(i);
                proof {
                    assert(cache_records(self.questionnaires@) =~= before.remove(i as int));
                    lemma_table_remove(before, cache_key(), i as int);
                }
            },
            None => {
                proof {
                    assert(old(self)@.questionnaires.remove(compilation_id@) =~= old(self)@.questionnaires);
                }
            },
        }
    }

    /// `cache_questionnaire`: keeps a copy of the questionnaire of a
    /// compilation.
    pub fn cache_questionnaire(&mut self, compilation_id: &str, questionnaire: &Questionnaire) -> (r:
        Result<(), AppError>)
        requires
            old(self).wf(),
        ensures
            final(self).wf(),
            applied(r, cached(old(self)@, compilation_id@, questionnaire@), old(self)@, final(self)@),
    {
        if questionnaire.revision > 0x7fff_ffff_ffff_ffff {
            return Err(too_large_error(questionnaire.revision));
        }
        let row = CachedQuestionnaire {
            compilation_id: String::from_str(compilation_id),
            questionnaire: questionnaire.duplicate(),
            updated_at: now(),
        };
        self.put_cache_row(row);
        Ok(())
    }

    /// `load_cached_questionnaire`: the cached questionnaire of a compilation.
    pub fn load_cached_questionnaire(&self, compilation_id: &str) -> (r: Option<Questionnaire>)
        requires
            self.wf(),
        ensures
            match r {
                Some(q) => self@.questionnaires.dom().contains(compilation_id@) && q@
                    == self@.questionnaires[compilation_id@].questionnaire,
                None => !self@.questionnaires.dom().contains(compilation_id@),
            },
    {
        match self.find_cache(&String::from_str(compilation_id)) {
            Some(i) => {
                proof {
                    lemma_table_index(cache_records(self.questionnaires@), cache_key(), i as int);
                }
                Some(self.questionnaires[i].questionnaire.duplicate())
            },
            None => None,
        }
    }

    /// `clear_attempt_data`: deletes all answers, outbox entries and cached
    /// questionnaires.
    pub fn clear_attempt_data(&mut self)
        requires
            old(self).wf(),
        ensures
            final(self).wf(),
            final(self)@ == cleared(old(self)@),
    {
        self.answers = Vec::new();
        self.outbox = Vec::new();
        self.questionnaires = Vec::new();
        proof {
            lemma_table_empty(answer_records(self.answers@), answer_key());
            lemma_table_empty(cache_records(self.questionnaires@), cache_key());
            assert(outbox_records(self.outbox@) =~= Seq::<OutboxRecord>::empty());
        }
    }

    /// `complete_submit`: stores the final client state and deletes the data
    /// of the submitted compilation, in one transaction.
    pub fn complete_submit(&mut self, config: &ClientConfig, snapshot: &ClientSnapshot, compilation_id: &str)
        requires
            old(self).wf(),
        ensures
            final(self).wf(),
            final(self)@ == submit_completed(old(self)@, *config, *snapshot, compilation_id@),
    {
        self.save_state(config, snapshot);
        let c = String::from_str(compilation_id);
        self.filter_outbox(&OutboxFilter::NotCompilation(c.clone()));
        self.retain_answers(&AnswerFilter::NotCompilation(c.clone()));
        self.remove_cache(&c);
        proof {
            assert(outbox_keep_fn(OutboxFilter::NotCompilation(c)) =~= (|r: OutboxRecord| r.compilation_id != compilation_id@));
            assert(answer_keep_fn(AnswerFilter::NotCompilation(c), old(self)@.answers) =~= (|k: (Seq<char>, Seq<char>)| k.0 != compilation_id@));
        }
    }

    /// `recreate_with_state`: the store of a new, empty SQLite file holding
    /// only the given client state.
    pub fn recreate_with_state(&mut self, config: &ClientConfig, snapshot: &ClientSnapshot)
        requires
            old(self).wf(),
        ensures
            final(self).wf(),
            final(self)@ == (StoreView {
                path: old(self)@.path,
                state: Some((*config, *snapshot)),
                answers: Map::empty(),
                outbox: Seq::empty(),
                last_sequence: 0,
                questionnaires: Map::empty(),
            }),
    {
        self.answers = Vec::new();
        self.outbox = Vec::new();
        self.questionnaires = Vec::new();
        self.last_sequence = 0;
        self.state = Some((config.clone(), snapshot.clone()));
        proof {
            lemma_table_empty(answer_records(self.answers@), answer_key());
            lemma_table_empty(cache_records(self.questionnaires@), cache_key());
            assert(outbox_records(self.outbox@) =~= Seq::<OutboxRecord>::empty());
        }
    }

    /// `rebind_compilation`: after the server assigned the compilation a new
    /// identifier, the local answers, the outbox entries and the cached
    /// questionnaire of the old identifier pass to the new one.
    pub fn rebind_compilation(&mut self, old_compilation_id: &str, new_compilation_id: &str)
        requires
            old(self).wf(),
        ensures
            final(self).wf(),
            final(self)@ == rebound(old(self)@, old_compilation_id@, new_compilation_id@),
    {
        let from = String::from_str(old_compilation_id);
        let to = String::from_str(new_compilation_id);
        if old_compilation_id.is_empty() || from == to {
            return;
        }
        let ghost v0 = self@;
        // UPDATE OR REPLACE local_answer
        self.retain_answers(&AnswerFilter::NotReplacedBy(from.clone(), to.clone()));
        let ghost m1 = self@.answers;
        let ghost before = answer_records(self.answers@);
        let ghost f = |a: AnswerRecord| renamed(a, from@, to@);
        let mut rows: Vec<AnswerRow> = Vec::new();
        let n: usize = self.answers.len();
        for i in 0..n
            invariant
                n == self.answers@.len(),
                before == answer_records(self.answers@),
                f == (|a: AnswerRecord| renamed(a, from@, to@)),
                answer_records(rows@) == before.take(i as int).map_values(f),
        {
            let mut row = self.answers[i].clone();
            if row.compilation_id == from {
                row.compilation_id = to.clone();
            }
            let ghost prev = rows@;
            proof {
                assert(before[i as int] == self.answers@[i as int]@);
                assert(row@ == f(before[i as int]));
            }
            rows.push(row);
            proof {
                assert(before.take(i + 1) =~= before.take(i as int).push(before[i as int]));
                assert(answer_records(rows@) =~= answer_records(prev).push(row@));
                assert(before.take(i + 1).map_values(f) =~= before.take(i as int).map_values(f).push(f(before[i as int])));
            }
        }
        proof {
            assert(before.take(n as int) =~= before);
            assert forall|q: Seq<char>| !(#[trigger] m1.dom().contains((from@, q)) && m1.dom().contains((to@, q))) by {
                if m1.dom().contains((to@, q)) {
                    assert(answer_kept(AnswerFilter::NotReplacedBy(from, to), v0.answers, (to@, q)));
                }
            }
            lemma_table_rename(before, from@, to@);
            assert(rebound_answers(m1, from@, to@) =~= rebound_answers(v0.answers, from@, to@));
        }
        self.answers = rows;
        proof {
            let v = self@;
            assert forall|k: (Seq<char>, Seq<char>)| #[trigger] v.answers.dom().contains(k) implies {
                let a = v.answers[k];
                &&& (a.compilation_id, a.question_id) == k
                &&& a.client_revision <= sqlite_max()
                &&& (a.server_revision is Some ==> a.server_revision->0 <= sqlite_max())
            } by {
                if k.0 == to@ && v0.answers.dom().contains((from@, k.1)) {
                    assert(v0.answers.dom().contains((from@, k.1)));
                } else {
                    assert(v0.answers.dom().contains(k));
                }
            }
        }
        // UPDATE outbox
        self.map_outbox(&OutboxUpdate::Rebind(from.clone(), to.clone()));
        proof {
            assert(outbox_update_fn(OutboxUpdate::Rebind(from, to)) =~= (|r: OutboxRecord|
                if r.compilation_id == from@ {
                    OutboxRecord { compilation_id: to@, ..r }
                } else {
                    r
                }));
        }
        // INSERT OR REPLACE INTO questionnaire_cache ... ; DELETE ...
        match self.find_cache(&from) {
            Some(i) => {
                proof {
                    lemma_table_index(cache_records(self.questionnaires@), cache_key(), i as int);
                }
                let row = CachedQuestionnaire {
                    compilation_id: to.clone(),
                    questionnaire: self.questionnaires[i].questionnaire.duplicate(),
                    updated_at: now(),
                };
                self.put_cache_row(row);
                self.remove_cache(&from);
            },
            None => {},
        }
        proof {
            assert(self@.questionnaires =~= rebound(v0, from@, to@).questionnaires);
            assert(self@.outbox =~= rebound(v0, from@, to@).outbox);
        }
    }

    /// Whether no two answer rows share their primary key.
    fn answer_keys_distinct(rows: &Vec<AnswerRow>) -> (r: bool)
        ensures
            r == keys_unique(answer_records(rows@), answer_key()),
    {
        let ghost recs = answer_records(rows@);
        let n: usize = rows.len();
        for i in 0..n
            invariant
                n == rows@.len(),
                recs == answer_records(rows@),
                forall|a: int, b: int|
                    0 <= a < i && 0 <= b < i && a != b ==> answer_key()(recs[a]) != answer_key()(recs[b]),
        {
            for j in 0..i
                invariant
                    n == rows@.len(),
                    i < n,
                    recs == answer_records(rows@),
                    forall|a: int, b: int|
                        0 <= a < i && 0 <= b < i && a != b ==> answer_key()(recs[a]) != answer_key()(recs[b]),
                    forall|b: int| 0 <= b < j ==> answer_key()(recs[i as int]) != answer_key()(recs[b]),
            {
                if rows[i].compilation_id == rows[j].compilation_id && rows[i].question_id == rows[j].question_id {
                    proof {
                        assert(answer_key()(recs[i as int]) == answer_key()(recs[j as int]));
                    }
                    return false;
                }
            }
        }
        true
    }

    /// Whether no two cache rows share their compilation.
    fn cache_keys_distinct(rows: &Vec<CachedQuestionnaire>) -> (r: bool)
        ensures
            r == keys_unique(cache_records(rows@), cache_key()),
    {
        let ghost recs = cache_records(rows@);
        let n: usize = rows.len();
        for i in 0..n
            invariant
                n == rows@.len(),
                recs == cache_records(rows@),
                forall|a: int, b: int|
                    0 <= a < i && 0 <= b < i && a != b ==> cache_key()(recs[a]) != cache_key()(recs[b]),
        {
            for j in 0..i
                invariant
                    n == rows@.len(),
                    i < n,
                    recs == cache_records(rows@),
                    forall|a: int, b: int|
                        0 <= a < i && 0 <= b < i && a != b ==> cache_key()(recs[a]) != cache_key()(recs[b]),
                    forall|b: int| 0 <= b < j ==> cache_key()(recs[i as int]) != cache_key()(recs[b]),
            {
                if rows[i].compilation_id == rows[j].compilation_id {
                    proof {
                        assert(cache_key()(recs[i as int]) == cache_key()(recs[j as int]));
                    }
                    return false;
                }
            }
        }
        true
    }

    /// Whether the outbox rows are in sequence order with unique request
    /// identifiers and SQLite-sized revisions.
    fn outbox_rows_ordered(rows: &Vec<OutboxRow>, last_sequence: i64) -> (r: bool)
        ensures
            r == outbox_ordered(outbox_records(rows@), last_sequence),
    {
        let ghost s = outbox_records(rows@);
        let n: usize = rows.len();
        for i in 0..n
            invariant
                n == rows@.len(),
                s == outbox_records(rows@),
                forall|a: int, b: int| 0 <= a < b < i ==> s[a].sequence < s[b].sequence,
                forall|a: int| 0 <= a < i ==> 1 <= #[trigger] s[a].sequence <= last_sequence,
                forall|a: int, b: int|
                    0 <= a < i && 0 <= b < i && a != b ==> s[a].request_id != s[b].request_id,
                forall|a: int|
                    0 <= a < i ==> #[trigger] s[a].client_revision <= sqlite_max() && s[a].attempts >= 0,
        {
            let row = &rows[i];
            if row.sequence < 1 || row.sequence > last_sequence || row.client_revision > 0x7fff_ffff_ffff_ffff
                || row.attempts < 0 {
                proof {
                    assert(s[i as int] == rows@[i as int]@);
                    assert(!(1 <= s[i as int].sequence <= last_sequence) || !(s[i as int].client_revision
                        <= sqlite_max() && s[i as int].attempts >= 0));
                }
                return false;
            }
            if i > 0 && rows[i - 1].sequence >= row.sequence {
                proof {
                    assert(s[i as int] == rows@[i as int]@);
                    assert(s[i - 1] == rows@[i - 1]@);
                }
                return false;
            }
            for j in 0..i
                invariant
                    n == rows@.len(),
                    i < n,
                    s == outbox_records(rows@),
                    forall|b: int| 0 <= b < j ==> s[i as int].request_id != s[b].request_id,
            {
                if rows[i].request_id == rows[j].request_id {
                    proof {
                        assert(s[i as int].request_id == s[j as int].request_id);
                    }
                    return false;
                }
            }
            proof {
                assert(s[i as int] == rows@[i as int]@);
                assert forall|a: int, b: int| 0 <= a < b < i + 1 implies s[a].sequence < s[b].sequence by {
                    if b == i && a < i - 1 {
                        assert(s[a].sequence < s[i - 1].sequence);
                    }
                }
                assert forall|a: int| 0 <= a < i + 1 implies #[trigger] s[a].client_revision <= sqlite_max() && s[a].attempts >= 0 by {
                    if a < i {
                        assert(s[a].client_revision <= sqlite_max());
                    }
                }
                assert forall|a: int| 0 <= a < i + 1 implies 1 <= #[trigger] s[a].sequence <= last_sequence by {
                    if a < i {
                        assert(1 <= s[a].sequence);
                    }
                }
            }
        }
        true
    }

    /// Whether the answer and cache rows hold SQLite-sized revisions.
    fn revisions_fit(answers: &Vec<AnswerRow>, questionnaires: &Vec<CachedQuestionnaire>) -> (r: bool)
        ensures
            r == ((forall|i: int|
                0 <= i < answer_records(answers@).len() ==> #[trigger] answer_records(answers@)[i].client_revision <= sqlite_max() && (
                answer_records(answers@)[i].server_revision is Some ==> answer_records(answers@)[i].server_revision->0 <= sqlite_max()))
                && (forall|i: int| 0 <= i < cache_records(questionnaires@).len() ==> #[trigger] cache_records(questionnaires@)[i].questionnaire.revision <= sqlite_max())),
    {
        let ghost a = answer_records(answers@);
        let ghost c = cache_records(questionnaires@);
        let n: usize = answers.len();
        let mut i: usize = 0;
        while i < n
            invariant
                n == answers@.len(),
                i <= n,
                a == answer_records(answers@),
                forall|j: int| 0 <= j < i ==> #[trigger] a[j].client_revision <= sqlite_max() && (
                    a[j].server_revision is Some ==> a[j].server_revision->0 <= sqlite_max()),
            decreases n - i,
        {
            proof {
                assert(a[i as int] == answers@[i as int]@);
            }
            let crev = answers[i].client_revision;
            let srev = answers[i].server_revision;
            let fits = crev <= 0x7fff_ffff_ffff_ffff && match srev {
                Some(r) => r <= 0x7fff_ffff_ffff_ffff,
                None => true,
            };
            if !fits {
                proof {
                    assert(!(a[i as int].client_revision <= sqlite_max() && (a[i as int].server_revision is Some ==> a[i as int].server_revision->0 <= sqlite_max())));
                }
                return false;
            }
            proof {
                assert(a[i as int].client_revision == crev);
                assert(a[i as int].server_revision == srev);
                assert(a[i as int].client_revision <= sqlite_max());
                assert(a[i as int].server_revision is Some ==> a[i as int].server_revision->0 <= sqlite_max());
                assert forall|j: int| 0 <= j < i + 1 implies #[trigger] a[j].client_revision <= sqlite_max() && (
                    a[j].server_revision is Some ==> a[j].server_revision->0 <= sqlite_max()) by {
                    if j < i {
                        assert(a[j].client_revision <= sqlite_max());
                    }
                }
            }
            i = i + 1;
        }
        let m: usize = questionnaires.len();
        for i in 0..m
            invariant
                m == questionnaires@.len(),
                c == cache_records(questionnaires@),
                forall|j: int| 0 <= j < a.len() ==> #[trigger] a[j].client_revision <= sqlite_max() && (
                    a[j].server_revision is Some ==> a[j].server_revision->0 <= sqlite_max()),
                forall|j: int| 0 <= j < i ==> #[trigger] c[j].questionnaire.revision <= sqlite_max(),
        {
            proof {
                assert(c[i as int] == questionnaires@[i as int]@);
            }
            if questionnaires[i].questionnaire.revision > 0x7fff_ffff_ffff_ffff {
                proof {
                    assert(cache_records(questionnaires@)[i as int].questionnaire.revision > sqlite_max());
                }
                return false;
            }
        }
        true
    }

    /// Whether rows read from an SQLite file can form a store: unique
    /// primary keys, the outbox in sequence order with unique request
    /// identifiers, and revisions that fit SQLite (`rows_consistent`). The
    /// keys and the `AUTOINCREMENT` sequence of the schema give this for
    /// every file the client writes.
    pub fn rows_are_consistent(
        answers: &Vec<AnswerRow>,
        outbox: &Vec<OutboxRow>,
        last_sequence: i64,
        questionnaires: &Vec<CachedQuestionnaire>,
    ) -> (r: bool)
        ensures
            r == rows_consistent(
                answer_records(answers@),
                outbox_records(outbox@),
                last_sequence,
                cache_records(questionnaires@),
            ),
    {
        last_sequence >= 0 && Self::answer_keys_distinct(answers) && Self::cache_keys_distinct(questionnaires)
            && Self::outbox_rows_ordered(outbox, last_sequence) && Self::revisions_fit(answers, questionnaires)
    }

    /// The store of the rows read from an SQLite file. Outbox rows left in
    /// flight by an interrupted run become pending again, as opening the
    /// file does.
    pub fn open(
        path: &str,
        state: Option<(ClientConfig, ClientSnapshot)>,
        answers: Vec<AnswerRow>,
        outbox: Vec<OutboxRow>,
        last_sequence: i64,
        questionnaires: Vec<CachedQuestionnaire>,
    ) -> (db: Database)
        requires
            rows_consistent(
                answer_records(answers@),
                outbox_records(outbox@),
                last_sequence,
                cache_records(questionnaires@),
            ),
        ensures
            db.wf(),
            db@ == (StoreView {
                path: path@,
                state,
                answers: table(answer_records(answers@), answer_key()),
                outbox: outbox_records(outbox@).map_values(|o: OutboxRecord| recovered(o)),
                last_sequence,
                questionnaires: table(cache_records(questionnaires@), cache_key()),
            }),
    {
        let mut db = Database { path: String::from_str(path), state, answers, outbox, last_sequence, questionnaires };
        proof {
            let v = db@;
            let a = answer_records(db.answers@);
            assert forall|k: (Seq<char>, Seq<char>)| #[trigger] v.answers.dom().contains(k) implies {
                let x = v.answers[k];
                &&& (x.compilation_id, x.question_id) == k
                &&& x.client_revision <= sqlite_max()
                &&& (x.server_revision is Some ==> x.server_revision->0 <= sqlite_max())
            } by {
                let j = choose|j: int| 0 <= j < a.len() && answer_key()(a[j]) == k;
                lemma_table_index(a, answer_key(), j);
            }
            let c = cache_records(db.questionnaires@);
            assert forall|k: Seq<char>| #[trigger] v.questionnaires.dom().contains(k) implies v.questionnaires[k].compilation_id == k
                && v.questionnaires[k].questionnaire.revision <= sqlite_max() by {
                let j = choose|j: int| 0 <= j < c.len() && cache_key()(c[j]) == k;
                lemma_table_index(c, cache_key(), j);
            }
        }
        db.map_outbox(&OutboxUpdate::Recover);
        proof {
            assert(outbox_update_fn(OutboxUpdate::Recover) =~= (|o: OutboxRecord| recovered(o)));
        }
        db
    }

    /// The `local_answer` rows, for writing the SQLite file.
    pub fn answer_rows(&self) -> (rows: &Vec<AnswerRow>)
        ensures
            table(answer_records(rows@), answer_key()) == self@.answers,
    {
        &self.answers
    }

    /// The `outbox` rows in sequence order, for writing the SQLite file.
    pub fn outbox_rows(&self) -> (rows: &Vec<OutboxRow>)
        ensures
            outbox_records(rows@) == self@.outbox,
    {
        &self.outbox
    }

    /// The `questionnaire_cache` rows, for writing the SQLite file.
    pub fn questionnaire_rows(&self) -> (rows: &Vec<CachedQuestionnaire>)
        ensures
            table(cache_records(rows@), cache_key()) == self@.questionnaires,
    {
        &self.questionnaires
    }

    /// The last outbox sequence number handed out.
    pub fn last_sequence(&self) -> (s: i64)
        ensures
            s == self@.last_sequence,
    {
        self.last_sequence
    }

    /// A copy of the store.
    fn duplicate(&self) -> (r: Self)
        requires
            self.wf(),
        ensures
            r.wf(),
            r@ == self@,
    {
        let mut answers: Vec<AnswerRow> = Vec::new();
        let n: usize = self.answers.len();
        for i in 0..n
            invariant
                n == self.answers@.len(),
                answers@ == self.answers@.take(i as int),
        {
            answers.push(self.answers[i].clone());
            proof {
                assert(self.answers@.take(i + 1) =~= self.answers@.take(i as int).push(self.answers@[i as int]));
            }
        }
        let mut outbox: Vec<OutboxRow> = Vec::new();
        let m: usize = self.outbox.len();
        for i in 0..m
            invariant
                m == self.outbox@.len(),
                outbox@ == self.outbox@.take(i as int),
        {
            outbox.push(self.outbox[i].clone());
            proof {
                assert(self.outbox@.take(i + 1) =~= self.outbox@.take(i as int).push(self.outbox@[i as int]));
            }
        }
        let mut questionnaires: Vec<CachedQuestionnaire> = Vec::new();
        let k: usize = self.questionnaires.len();
        for i in 0..k
            invariant
                k == self.questionnaires@.len(),
                cache_records(questionnaires@) == cache_records(self.questionnaires@).take(i as int),
        {
            let ghost prev = questionnaires@;
            let row = self.questionnaires[i].duplicate();
            questionnaires.push(row);
            proof {
                assert(cache_records(questionnaires@) =~= cache_records(prev).push(row@));
                assert(cache_records(self.questionnaires@).take(i + 1) =~= cache_records(self.questionnaires@).take(i as int).push(self.questionnaires@[i as int]@));
            }
        }
        proof {
            assert(answers@ =~= self.answers@);
            assert(outbox@ =~= self.outbox@);
            assert(cache_records(questionnaires@) =~= cache_records(self.questionnaires@));
        }
        let state = match &self.state {
            Some((config, snapshot)) => Some((config.clone(), snapshot.clone())),
            None => None,
        };
        Database {
            path: self.path.clone(),
            state,
            answers,
            outbox,
            last_sequence: self.last_sequence,
            questionnaires,
        }
    }

    /// Whether some outbox entry carries this revision of the answer.
    fn outbox_has(&self, compilation_id: &String, question_id: &String, client_revision: u64) -> (r: bool)
        requires
            self.wf(),
        ensures
            r == queued_in(self@.outbox, compilation_id@, question_id@, client_revision),
    {
        let n: usize = self.outbox.len();
        for i in 0..n
            invariant
                n == self.outbox@.len(),
                forall|j: int|
                    0 <= j < i ==> !(#[trigger] self@.outbox[j].compilation_id == compilation_id@
                        && self@.outbox[j].question_id == question_id@
                        && self@.outbox[j].client_revision == client_revision),
        {
            proof {
                assert(self@.outbox[i as int] == self.outbox@[i as int]@);
            }
            if self.outbox[i].compilation_id == *compilation_id && self.outbox[i].question_id == *question_id
                && self.outbox[i].client_revision == client_revision {
                return true;
            }
        }
        false
    }

    /// One upsert of the server's copy of an answer.
    fn upsert_server_answer(&mut self, compilation_id: &String, sa: &ServerAnswer)
        requires
            old(self).wf(),
            sa.client_revision <= sqlite_max(),
            sa.server_revision <= sqlite_max(),
        ensures
            final(self).wf(),
            final(self)@ == (StoreView {
                answers: server_upsert(old(self)@.answers, compilation_id@, sa@),
                ..old(self)@
            }),
    {
        let row = AnswerRow {
            compilation_id: compilation_id.clone(),
            question_id: sa.question_id.clone(),
            client_revision: sa.client_revision,
            server_revision: Some(sa.server_revision),
            answer_json: sa.answer.clone(),
            sync_state: AnswerSyncState::Synced,
            last_error: None,
            updated_at: now(),
        };
        proof {
            assert(row@ == server_record(compilation_id@, sa@));
        }
        match self.find_answer(compilation_id, &sa.question_id) {
            Some(i) => {
                proof {
                    lemma_table_index(answer_records(self.answers@), answer_key(), i as int);
                }
                if self.answers[i].sync_state == AnswerSyncState::Synced && sa.client_revision
                    >= self.answers[i].client_revision {
                    self.put_answer_row(row);
                }
            },
            None => {
                self.put_answer_row(row);
            },
        }
    }

    /// The index of the row with the least question in text order.
    fn least_question(rows: &Vec<AnswerRow>) -> (k: usize)
        requires
            rows@.len() > 0,
            forall|a: int, b: int|
                0 <= a < rows@.len() && 0 <= b < rows@.len() && a != b ==> rows@[a].question_id@
                    != rows@[b].question_id@,
        ensures
            k < rows@.len(),
            forall|j: int|
                0 <= j < rows@.len() && j != k ==> text_before(
                    rows@[k as int].question_id@,
                    #[trigger] rows@[j].question_id@,
                ),
    {
        let n: usize = rows.len();
        let mut k: usize = 0;
        for i in 1..n
            invariant
                n == rows@.len(),
                k < i,
                i <= n,
                forall|a: int, b: int|
                    0 <= a < rows@.len() && 0 <= b < rows@.len() && a != b ==> rows@[a].question_id@
                        != rows@[b].question_id@,
                forall|j: int|
                    0 <= j < i && j != k ==> text_before(
                        rows@[k as int].question_id@,
                        #[trigger] rows@[j].question_id@,
                    ),
        {
            if text_precedes(rows[i].question_id.as_str(), rows[k].question_id.as_str()) {
                proof {
                    let qi = rows@[i as int].question_id@;
                    let qk = rows@[k as int].question_id@;
                    assert forall|j: int| 0 <= j < i + 1 && j != i implies text_before(qi, #[trigger] rows@[j].question_id@) by {
                        if j != k {
                            lemma_text_transitive(qi, qk, rows@[j].question_id@);
                        }
                    }
                }
                k = i;
            } else {
                proof {
                    let qi = rows@[i as int].question_id@;
                    let qk = rows@[k as int].question_id@;
                    lemma_text_total(qi, qk);
                }
            }
        }
        k
    }

    /// Whether the server returned an answer for the question.
    fn server_answers_have(answers: &[ServerAnswer], question_id: &String) -> (r: bool)
        ensures
            r == server_has(server_views(answers@), question_id@),
    {
        let ghost views = server_views(answers@);
        let n: usize = answers.len();
        for i in 0..n
            invariant
                n == answers@.len(),
                views == server_views(answers@),
                forall|j: int| 0 <= j < i ==> #[trigger] views[j].question_id != question_id@,
        {
            if answers[i].question_id == *question_id {
                proof {
                    assert(views[i as int].question_id == question_id@);
                }
                return true;
            }
        }
        false
    }

    /// The answer rows of the compilation marked synchronised for questions
    /// the server did not return.
    #[verifier::rlimit(40)]
    fn stale_rows(&self, c: &String, answers: &[ServerAnswer]) -> (remaining: Vec<AnswerRow>)
        requires
            self.wf(),
        ensures
            forall|j: int|
                0 <= j < remaining@.len() ==> stale_synced(self@.answers, c@, server_views(answers@), #[trigger] remaining@[j].question_id@)
                    && remaining@[j]@ == self@.answers[(c@, remaining@[j].question_id@)],
            forall|a: int, b: int|
                0 <= a < remaining@.len() && 0 <= b < remaining@.len() && a != b
                    ==> remaining@[a].question_id@ != remaining@[b].question_id@,
            forall|q: Seq<char>| #[trigger] stale_synced(self@.answers, c@, server_views(answers@), q) ==> exists|j: int|
                0 <= j < remaining@.len() && remaining@[j].question_id@ == q,
    {
        let ghost views = server_views(answers@);
        let ghost m1 = self@.answers;
        let mut remaining: Vec<AnswerRow> = Vec::new();
        let ghost recs = answer_records(self.answers@);
        let k: usize = self.answers.len();
        let mut i: usize = 0;
        while i < k
            invariant
                k == self.answers@.len(),
                i <= k,
                recs == answer_records(self.answers@),
                self.wf(),
                m1 == self@.answers,
                m1 == table(recs, answer_key()),
                views == server_views(answers@),
                forall|j: int|
                    0 <= j < remaining@.len() ==> stale_synced(m1, c@, views, #[trigger] remaining@[j].question_id@)
                        && remaining@[j]@ == m1[(c@, remaining@[j].question_id@)],
                forall|a: int, b: int|
                    0 <= a < remaining@.len() && 0 <= b < remaining@.len() && a != b
                        ==> remaining@[a].question_id@ != remaining@[b].question_id@,
                forall|t: int|
                    0 <= t < i && #[trigger] recs[t].compilation_id == c@ && recs[t].sync_state
                        == AnswerSyncState::Synced && !server_has(views, recs[t].question_id)
                        ==> exists|j: int| 0 <= j < remaining@.len() && remaining@[j]@ == recs[t],
                forall|j: int| 0 <= j < remaining@.len() ==> exists|t: int| 0 <= t < i && #[trigger] remaining@[j]@ == #[trigger] recs[t],
            decreases k - i,
        {
            proof {
                assert(recs[i as int] == self.answers@[i as int]@);
                lemma_table_index(recs, answer_key(), i as int);
            }
            if self.answers[i].compilation_id == *c && self.answers[i].sync_state == AnswerSyncState::Synced
                && !Self::server_answers_have(answers, &self.answers[i].question_id) {
                let row = self.answers[i].clone();
                let ghost prev = remaining@;
                proof {
                    assert forall|j: int| 0 <= j < prev.len() implies prev[j].question_id@ != row.question_id@ by {
                        let t = choose|t: int| 0 <= t < i && #[trigger] prev[j]@ == #[trigger] recs[t];
                        assert(answer_key()(recs[t]) != answer_key()(recs[i as int]));
                    }
                }
                remaining.push(row);
                proof {
                    assert forall|t: int|
                        0 <= t < i + 1 && #[trigger] recs[t].compilation_id == c@ && recs[t].sync_state
                            == AnswerSyncState::Synced && !server_has(views, recs[t].question_id)
                            implies exists|j: int| 0 <= j < remaining@.len() && remaining@[j]@ == recs[t] by {
                        if t < i {
                            let j = choose|j: int| 0 <= j < prev.len() && prev[j]@ == recs[t];
                            assert(remaining@[j] == prev[j]);
                        } else {
                            assert(remaining@[prev.len() as int]@ == recs[t]);
                        }
                    }
                    assert forall|j: int| 0 <= j < remaining@.len() implies exists|t: int| 0 <= t < i + 1 && #[trigger] remaining@[j]@ == #[trigger] recs[t] by {
                        if j < prev.len() {
                            assert(remaining@[j] == prev[j]);
                            let t = choose|t: int| 0 <= t < i && #[trigger] prev[j]@ == #[trigger] recs[t];
                            assert(remaining@[j]@ == recs[t]);
                        } else {
                            assert(remaining@[j]@ == recs[i as int]);
                        }
                    }
                }
            } else {
                proof {
                    assert forall|t: int|
                        0 <= t < i + 1 && #[trigger] recs[t].compilation_id == c@ && recs[t].sync_state
                            == AnswerSyncState::Synced && !server_has(views, recs[t].question_id)
                            implies exists|j: int| 0 <= j < remaining@.len() && remaining@[j]@ == recs[t] by {
                        if t == i {
                            assert(false);
                        }
                    }
                    assert forall|j: int| 0 <= j < remaining@.len() implies exists|t: int| 0 <= t < i + 1 && #[trigger] remaining@[j]@ == #[trigger] recs[t] by {
                        let t = choose|t: int| 0 <= t < i && #[trigger] remaining@[j]@ == #[trigger] recs[t];
                        assert(remaining@[j]@ == recs[t]);
                    }
                }
            }
            i = i + 1;
        }
        proof {
            assert forall|q: Seq<char>| #[trigger] stale_synced(m1, c@, views, q) implies exists|j: int|
                0 <= j < remaining@.len() && remaining@[j].question_id@ == q by {
                let t = choose|t: int| 0 <= t < recs.len() && answer_key()(recs[t]) == (c@, q);
                lemma_table_index(recs, answer_key(), t);
                let j = choose|j: int| 0 <= j < remaining@.len() && remaining@[j]@ == recs[t];
            }
        }
        remaining
    }

    /// `reconcile_server_answers`: merges the answers that
    /// `compilazione.read` returned, which are authoritative, without
    /// overwriting local changes still pending or failed; then every local
    /// answer marked synchronised that the server does not have goes back to
    /// pending, with an outbox entry for its revision, so that the submit
    /// stays blocked until the server confirms it. One transaction: on error
    /// nothing changes.
    pub fn reconcile_server_answers(&mut self, compilation_id: &str, answers: &[ServerAnswer]) -> (r:
        Result<(), AppError>)
        requires
            old(self).wf(),
        ensures
            final(self).wf(),
            match r {
                Ok(()) => server_revision_error(server_views(answers@)) is None
                    && reconciled(old(self)@, compilation_id@, server_views(answers@), final(self)@),
                Err(e) => final(self)@ == old(self)@ && reconcile_failure(
                    old(self)@,
                    compilation_id@,
                    server_views(answers@),
                    e@,
                ),
            },
    {
        let ghost views = server_views(answers@);
        let ghost v0 = self@;
        let c = String::from_str(compilation_id);
        let mut work = self.duplicate();
        // Authoritative answers, without overwriting local changes.
        let n: usize = answers.len();
        proof {
            assert(views.take(0) =~= Seq::<ServerAnswerView>::empty());
            assert(views.skip(0) =~= views);
        }
        for i in 0..n
            invariant
                n == answers@.len(),
                views == server_views(answers@),
                c@ == compilation_id@,
                self.wf(),
                self@ == v0,
                work.wf(),
                work@ == (StoreView { answers: server_merged(v0.answers, c@, views.take(i as int)), ..v0 }),
                server_revision_error(views) == server_revision_error(views.skip(i as int)),
        {
            let sa = &answers[i];
            proof {
                assert(views[i as int] == sa@);
                assert(views.skip(i as int)[0] == sa@);
                assert(views.skip(i as int).drop_first() =~= views.skip(i + 1));
            }
            if sa.client_revision > 0x7fff_ffff_ffff_ffff {
                return Err(too_large_error(sa.client_revision));
            }
            if sa.server_revision > 0x7fff_ffff_ffff_ffff {
                return Err(too_large_error(sa.server_revision));
            }
            work.upsert_server_answer(&c, sa);
            proof {
                assert(views.take(i + 1).drop_last() =~= views.take(i as int));
                assert(views.take(i + 1).last() == sa@);
            }
        }
        proof {
            assert(views.take(n as int) =~= views);
            assert(views.skip(n as int) =~= Seq::<ServerAnswerView>::empty());
        }
        let ghost m1 = work@.answers;
        let ghost start = work@;
        // The synchronised answers that the server does not have.
        let mut remaining = work.stale_rows(&c, answers);
        // Put them back in line, in ascending question order.
        let ghost base = v0.outbox;
        let ghost nb = base.len() as int;
        let ghost mut done: Set<Seq<char>> = Set::empty();
        while remaining.len() > 0
            invariant
                self.wf(),
                self@ == v0,
                server_revision_error(views) is None,
                work.wf(),
                views == server_views(answers@),
                c@ == compilation_id@,
                m1 == server_merged(v0.answers, c@, views),
                base == v0.outbox,
                nb == base.len(),
                start.outbox == base,
                start.last_sequence == v0.last_sequence,
                work@.path == v0.path,
                work@.state == v0.state,
                work@.questionnaires == v0.questionnaires,
                forall|j: int|
                    0 <= j < remaining@.len() ==> stale_synced(m1, c@, views, #[trigger] remaining@[j].question_id@)
                        && remaining@[j]@ == m1[(c@, remaining@[j].question_id@)],
                forall|a: int, b: int|
                    0 <= a < remaining@.len() && 0 <= b < remaining@.len() && a != b
                        ==> remaining@[a].question_id@ != remaining@[b].question_id@,
                forall|q: Seq<char>|
                    #[trigger] stale_synced(m1, c@, views, q) ==> done.contains(q) || exists|j: int|
                        0 <= j < remaining@.len() && remaining@[j].question_id@ == q,
                forall|q: Seq<char>| #[trigger] done.contains(q) ==> stale_synced(m1, c@, views, q),
                forall|q: Seq<char>, j: int|
                    #[trigger] done.contains(q) && 0 <= j < remaining@.len() ==> text_before(
                        q,
                        #[trigger] remaining@[j].question_id@,
                    ),
                work@.answers == Map::new(
                    |key: (Seq<char>, Seq<char>)| m1.dom().contains(key),
                    |key: (Seq<char>, Seq<char>)|
                        if key.0 == c@ && done.contains(key.1) {
                            requeued(m1[key])
                        } else {
                            m1[key]
                        },
                ),
                work@.outbox.len() >= nb,
                work@.outbox.take(nb) == base,
                work@.last_sequence == v0.last_sequence + (work@.outbox.len() - nb),
                forall|j: int|
                    0 <= j < work@.outbox.skip(nb).len() ==> {
                        let q = #[trigger] work@.outbox.skip(nb)[j].question_id;
                        &&& done.contains(q)
                        &&& !queued_in(base, c@, q, m1[(c@, q)].client_revision)
                        &&& work@.outbox.skip(nb)[j] == new_outbox_record(
                            (v0.last_sequence + 1 + j) as i64,
                            work@.outbox.skip(nb)[j].request_id,
                            c@,
                            q,
                            m1[(c@, q)].client_revision,
                            m1[(c@, q)].answer_json,
                        )
                        &&& uuid_v4_text(work@.outbox.skip(nb)[j].request_id)
                    },
                forall|q: Seq<char>|
                    #[trigger] done.contains(q) && !queued_in(base, c@, q, m1[(c@, q)].client_revision)
                        ==> exists|j: int| 0 <= j < work@.outbox.skip(nb).len() && work@.outbox.skip(nb)[j].question_id == q,
                forall|a: int, b: int|
                    0 <= a < b < work@.outbox.skip(nb).len() ==> text_before(
                        work@.outbox.skip(nb)[a].question_id,
                        work@.outbox.skip(nb)[b].question_id,
                    ),
            decreases remaining@.len(),
        {
            let idx = Self::least_question(&remaining);
            let ghost before_rem = remaining@;
            let row = remaining.remove(idx);
            let ghost q = row.question_id@;
            let ghost w0 = work@;
            proof {
                assert(row == before_rem[idx as int]);
                assert(!done.contains(q)) by {
                    if done.contains(q) {
                        lemma_text_irreflexive(q);
                        assert(text_before(q, before_rem[idx as int].question_id@));
                    }
                }
                // The entries added so far are for other questions.
                assert(queued_in(w0.outbox, c@, q, row.client_revision) == queued_in(base, c@, q, row.client_revision)) by {
                    if queued_in(w0.outbox, c@, q, row.client_revision) {
                        let t = choose|t: int| 0 <= t < w0.outbox.len() && w0.outbox[t].compilation_id == c@
                            && w0.outbox[t].question_id == q && w0.outbox[t].client_revision == row.client_revision;
                        if t >= nb {
                            assert(w0.outbox.skip(nb)[t - nb] == w0.outbox[t]);
                        } else {
                            assert(w0.outbox.take(nb)[t] == w0.outbox[t]);
                        }
                    }
                    if queued_in(base, c@, q, row.client_revision) {
                        let t = choose|t: int| 0 <= t < base.len() && base[t].compilation_id == c@
                            && base[t].question_id == q && base[t].client_revision == row.client_revision;
                        assert(w0.outbox.take(nb)[t] == w0.outbox[t]);
                    }
                }
            }
            proof {
                assert(work@.answers.dom().contains((c@, q)));
                assert(work@.answers[(c@, q)] == row@);
                assert(row.client_revision <= sqlite_max());
            }
            if !work.outbox_has(&c, &row.question_id, row.client_revision) {
                let id = new_request_id();
                match work.insert_outbox(
                    id.as_str(),
                    compilation_id,
                    row.question_id.as_str(),
                    row.client_revision,
                    row.answer_json.as_str(),
                ) {
                    Err(e) => {
                        proof {
                            assert(stale_synced(m1, c@, views, q));
                            assert(!queued_in(v0.outbox, c@, q, m1[(c@, q)].client_revision));
                            assert(needs_queue(v0, compilation_id@, views));
                            if e@ == outbox_full() {
                                let added = w0.outbox.skip(nb);
                                let qs = added.map_values(|r: OutboxRecord| r.question_id).push(q);
                                reveal_strlit("database or disk is full");
                                reveal_strlit("UNIQUE constraint failed: outbox.request_id");
                                assert(outbox_full() != duplicate_request_id()) by {
                                    assert("database or disk is full"@.len() != "UNIQUE constraint failed: outbox.request_id"@.len());
                                }
                                assert(w0.last_sequence == i64::MAX);
                                assert(qs.len() == added.len() + 1);
                                assert(added.len() == w0.outbox.len() - nb);
                                assert(v0.last_sequence + qs.len() > i64::MAX);
                                assert forall|i: int| 0 <= i < qs.len() implies #[trigger] must_queue(
                                    v0,
                                    compilation_id@,
                                    views,
                                    qs[i],
                                ) by {
                                    if i < added.len() {
                                        assert(qs[i] == added[i].question_id);
                                        assert(done.contains(added[i].question_id));
                                    }
                                }
                                assert forall|i: int, j: int| 0 <= i < j < qs.len() implies qs[i] != qs[j] by {
                                    if j < added.len() {
                                        assert(text_before(added[i].question_id, added[j].question_id));
                                        if qs[i] == qs[j] {
                                            lemma_text_irreflexive(qs[i]);
                                        }
                                    } else {
                                        assert(qs[i] == added[i].question_id);
                                        assert(done.contains(added[i].question_id));
                                    }
                                }
                                assert(queue_overflows(v0, compilation_id@, views));
                            }
                            if e@ == duplicate_request_id() {
                                reveal_strlit("database or disk is full");
                                reveal_strlit("UNIQUE constraint failed: outbox.request_id");
                                assert(outbox_full() != duplicate_request_id()) by {
                                    assert("database or disk is full"@.len() != "UNIQUE constraint failed: outbox.request_id"@.len());
                                }
                                assert(request_id_taken(w0, id@));
                                let t = choose|t: int| 0 <= t < w0.outbox.len() && w0.outbox[t].request_id == id@;
                                if t < nb {
                                    assert(w0.outbox.take(nb)[t] == w0.outbox[t]);
                                    assert(request_id_taken(v0, id@));
                                } else {
                                    let added = w0.outbox.skip(nb);
                                    assert(added[0] == w0.outbox[nb]);
                                    let q2 = added[0].question_id;
                                    assert(done.contains(q2));
                                    assert(q2 != q);
                                    assert(stale_synced(m1, c@, views, q2));
                                    assert(needs_queue_twice(v0, compilation_id@, views));
                                }
                            }
                        }
                        return Err(e);
                    },
                    Ok(()) => {
                        proof {
                            let w1 = work@;
                            assert(w1.outbox == w0.outbox.push(w1.outbox.last()));
                            assert(w1.outbox.take(nb) =~= base) by {
                                assert forall|t: int| 0 <= t < nb implies w1.outbox.take(nb)[t] == base[t] by {
                                    assert(w0.outbox.take(nb)[t] == w0.outbox[t]);
                                }
                            }
                            assert(w1.outbox.skip(nb) =~= w0.outbox.skip(nb).push(w1.outbox.last()));
                        }
                    },
                }
            }
            let ghost w2 = work@;
            // UPDATE local_answer SET sync_state = 'PENDING', ... for this revision.
            let mut back = row.clone();
            back.sync_state = AnswerSyncState::Pending;
            back.server_revision = None;
            back.last_error = None;
            back.updated_at = now();
            proof {
                assert(back@ == requeued(m1[(c@, q)]));
            }
            work.put_answer_row(back);
            proof {
                let ghost old_done = done;
                done = done.insert(q);
                let w3 = work@;
                assert(w3.outbox == w2.outbox);
                assert(w2.answers == w0.answers);
                assert(w3.answers == w0.answers.insert((c@, q), requeued(m1[(c@, q)])));
                assert(w3.answers =~= Map::new(
                    |key: (Seq<char>, Seq<char>)| m1.dom().contains(key),
                    |key: (Seq<char>, Seq<char>)|
                        if key.0 == c@ && done.contains(key.1) {
                            requeued(m1[key])
                        } else {
                            m1[key]
                        },
                ));
                assert forall|q2: Seq<char>, j: int|
                    #[trigger] done.contains(q2) && 0 <= j < remaining@.len() implies text_before(
                        q2,
                        #[trigger] remaining@[j].question_id@,
                    ) by {
                    let jj = if j < idx { j } else { j + 1 };
                    assert(remaining@[j] == before_rem[jj]);
                    if q2 == q {
                        assert(jj != idx);
                    }
                }
                assert forall|q2: Seq<char>|
                    #[trigger] stale_synced(m1, c@, views, q2) implies done.contains(q2) || exists|j: int|
                        0 <= j < remaining@.len() && remaining@[j].question_id@ == q2 by {
                    if !done.contains(q2) {
                        let j = choose|j: int| 0 <= j < before_rem.len() && before_rem[j].question_id@ == q2;
                        assert(j != idx);
                        let j2 = if j < idx { j } else { j - 1 };
                        assert(remaining@[j2] == before_rem[j]);
                    }
                }
                assert forall|j: int| 0 <= j < remaining@.len() implies stale_synced(m1, c@, views, #[trigger] remaining@[j].question_id@)
                    && remaining@[j]@ == m1[(c@, remaining@[j].question_id@)] by {
                    let jj = if j < idx { j } else { j + 1 };
                    assert(remaining@[j] == before_rem[jj]);
                }
                let added = w3.outbox.skip(nb);
                let added0 = w0.outbox.skip(nb);
                assert forall|j: int| 0 <= j < added.len() implies {
                    let qq = #[trigger] added[j].question_id;
                    &&& done.contains(qq)
                    &&& !queued_in(base, c@, qq, m1[(c@, qq)].client_revision)
                    &&& added[j] == new_outbox_record(
                        (v0.last_sequence + 1 + j) as i64,
                        added[j].request_id,
                        c@,
                        qq,
                        m1[(c@, qq)].client_revision,
                        m1[(c@, qq)].answer_json,
                    )
                    &&& uuid_v4_text(added[j].request_id)
                } by {
                    if j < added0.len() {
                        assert(added[j] == added0[j]);
                    }
                }
                assert forall|q2: Seq<char>|
                    #[trigger] done.contains(q2) && !queued_in(base, c@, q2, m1[(c@, q2)].client_revision)
                        implies exists|j: int| 0 <= j < added.len() && added[j].question_id == q2 by {
                    if q2 != q {
                        let j = choose|j: int| 0 <= j < added0.len() && added0[j].question_id == q2;
                        assert(added[j] == added0[j]);
                    } else {
                        assert(added[added.len() - 1].question_id == q);
                    }
                }
                assert forall|a: int, b: int| 0 <= a < b < added.len() implies text_before(
                    added[a].question_id,
                    added[b].question_id,
                ) by {
                    if b < added0.len() {
                        assert(added[a] == added0[a] && added[b] == added0[b]);
                    } else {
                        assert(added[a] == added0[a]);
                        let qa = added0[a].question_id;
                        assert(done.contains(qa));
                        assert(text_before(qa, before_rem[idx as int].question_id@));
                    }
                }
            }
        }
        proof {
            let w = work@;
            assert(w.answers =~= requeued_answers(m1, c@, views)) by {
                assert forall|q2: Seq<char>| done.contains(q2) <==> stale_synced(m1, c@, views, q2) by {
                    if stale_synced(m1, c@, views, q2) {
                        if !done.contains(q2) {
                            let j = choose|j: int| 0 <= j < remaining@.len() && remaining@[j].question_id@ == q2;
                        }
                    }
                }
            }
        }
        *self = work;
        Ok(())
    }

    /// `import_checkpoint`: moves the state file of an earlier client version
    /// into the store, in one transaction; on error nothing changes.
    pub fn import_checkpoint(&mut self, checkpoint: &Checkpoint) -> (r: Result<(), AppError>)
        requires
            old(self).wf(),
        ensures
            final(self).wf(),
            match r {
                Ok(()) => answer_revision_error(local_views(checkpoint.answers@)) is None && imported(
                    old(self)@,
                    checkpoint.config,
                    checkpoint.snapshot,
                    local_views(checkpoint.answers@),
                    final(self)@,
                ),
                Err(e) => final(self)@ == old(self)@ && import_failure(
                    old(self)@,
                    local_views(checkpoint.answers@),
                    e@,
                ),
            },
    {
        let ghost views = local_views(checkpoint.answers@);
        let ghost v0 = self@;
        let ghost pf = |a: LocalAnswerView| unconfirmed(a);
        let mut work = self.duplicate();
        work.save_state(&checkpoint.config, &checkpoint.snapshot);
        let ghost v1 = work@;
        let c = checkpoint.snapshot.compilation_id.as_str();
        let n: usize = checkpoint.answers.len();
        proof {
            assert(views.take(0) =~= Seq::<LocalAnswerView>::empty());
            assert(views.skip(0) =~= views);
            reveal(Seq::filter);
            assert(views.take(0).filter(pf) =~= Seq::<LocalAnswerView>::empty());
            assert(work@.outbox.skip(v0.outbox.len() as int) =~= Seq::<OutboxRecord>::empty());
            assert(work@.outbox.take(v0.outbox.len() as int) =~= v0.outbox);
        }
        for i in 0..n
            invariant
                n == checkpoint.answers@.len(),
                views == local_views(checkpoint.answers@),
                pf == (|a: LocalAnswerView| unconfirmed(a)),
                c@ == checkpoint.snapshot.compilation_id@,
                self.wf(),
                self@ == v0,
                v1 == (StoreView { state: Some((checkpoint.config, checkpoint.snapshot)), ..v0 }),
                work.wf(),
                answer_revision_error(views) == answer_revision_error(views.skip(i as int)),
                work@.path == v0.path,
                work@.state == v1.state,
                work@.questionnaires == v0.questionnaires,
                work@.answers == imported_answers(v0.answers, c@, views.take(i as int)),
                work@.outbox.len() >= v0.outbox.len(),
                work@.outbox.take(v0.outbox.len() as int) == v0.outbox,
                work@.outbox.skip(v0.outbox.len() as int).len() == views.take(i as int).filter(pf).len(),
                work@.last_sequence == v0.last_sequence + work@.outbox.skip(v0.outbox.len() as int).len(),
                forall|j: int|
                    0 <= j < work@.outbox.skip(v0.outbox.len() as int).len() ==> #[trigger] work@.outbox.skip(v0.outbox.len() as int)[j]
                        == new_outbox_record(
                        (v0.last_sequence + 1 + j) as i64,
                        work@.outbox.skip(v0.outbox.len() as int)[j].request_id,
                        c@,
                        views.take(i as int).filter(pf)[j].question_id,
                        views.take(i as int).filter(pf)[j].client_revision,
                        views.take(i as int).filter(pf)[j].answer,
                    ) && uuid_v4_text(work@.outbox.skip(v0.outbox.len() as int)[j].request_id),
        {
            let a = &checkpoint.answers[i];
            let ghost w0 = work@;
            let ghost nb = v0.outbox.len() as int;
            proof {
                assert(views[i as int] == a@);
                assert(views.skip(i as int)[0] == a@);
                assert(views.skip(i as int).drop_first() =~= views.skip(i + 1));
                reveal(Seq::filter);
                assert(views.take(i + 1).drop_last() =~= views.take(i as int));
                assert(views.take(i + 1).last() == a@);
            }
            match work.insert_local_answer(c, a) {
                Err(e) => {
                    return Err(e);
                },
                Ok(()) => {},
            }
            if a.sync_state != AnswerSyncState::Synced {
                let id = new_request_id();
                match work.insert_outbox(
                    id.as_str(),
                    c,
                    a.question_id.as_str(),
                    a.client_revision,
                    a.answer.as_str(),
                ) {
                    Err(e) => {
                        proof {
                            reveal(Seq::filter);
                            assert(views.take(i + 1).filter(pf) == views.take(i as int).filter(pf).push(a@));
                            views.lemma_filter_take_len(pf, i + 1);
                            assert(pf =~= (|a: LocalAnswerView| unconfirmed(a)));
                            assert(pending_answers(views) == views.filter(pf));
                            if e@ == duplicate_request_id() {
                                reveal_strlit("database or disk is full");
                                reveal_strlit("UNIQUE constraint failed: outbox.request_id");
                                assert(outbox_full() != duplicate_request_id()) by {
                                    assert("database or disk is full"@.len() != "UNIQUE constraint failed: outbox.request_id"@.len());
                                }
                                assert(request_id_taken(w0, id@));
                                let t = choose|t: int| 0 <= t < w0.outbox.len() && w0.outbox[t].request_id == id@;
                                if t < nb {
                                    assert(w0.outbox.take(nb)[t] == w0.outbox[t]);
                                    assert(request_id_taken(v0, id@));
                                } else {
                                    assert(w0.outbox.skip(nb).len() > 0);
                                }
                            }
                        }
                        return Err(e);
                    },
                    Ok(()) => {
                        proof {
                            let w1 = work@;
                            assert(w1.outbox.take(nb) =~= v0.outbox) by {
                                assert forall|t: int| 0 <= t < nb implies w1.outbox.take(nb)[t] == v0.outbox[t] by {
                                    assert(w0.outbox.take(nb)[t] == w0.outbox[t]);
                                }
                            }
                            assert(w1.outbox.skip(nb) =~= w0.outbox.skip(nb).push(w1.outbox.last()));
                            assert(views.take(i + 1).filter(pf) == views.take(i as int).filter(pf).push(a@));
                            let added = w1.outbox.skip(nb);
                            assert forall|j: int| 0 <= j < added.len() implies #[trigger] added[j]
                                == new_outbox_record(
                                (v0.last_sequence + 1 + j) as i64,
                                added[j].request_id,
                                c@,
                                views.take(i + 1).filter(pf)[j].question_id,
                                views.take(i + 1).filter(pf)[j].client_revision,
                                views.take(i + 1).filter(pf)[j].answer,
                            ) && uuid_v4_text(added[j].request_id) by {
                                if j < added.len() - 1 {
                                    assert(added[j] == w0.outbox.skip(nb)[j]);
                                }
                            }
                        }
                    },
                }
            } else {
                proof {
                    assert(views.take(i + 1).filter(pf) == views.take(i as int).filter(pf));
                }
            }
        }
        proof {
            assert(views.take(n as int) =~= views);
            assert(views.skip(n as int) =~= Seq::<LocalAnswerView>::empty());
            assert(pf =~= (|a: LocalAnswerView| unconfirmed(a)));
        }
        *self = work;
        Ok(())
    }
}


// ---------------------------------------------------------------------------
// Conversions between the store's values and SQLite's
// ---------------------------------------------------------------------------

/// The SQLite text of an answer's synchronisation state.
pub open spec fn sync_state_text(state: AnswerSyncState) -> Seq<char> {
    match state {
        AnswerSyncState::Pending => "PENDING"@,
        AnswerSyncState::Synced => "SYNCED"@,
        AnswerSyncState::Error => "ERROR"@,
    }
}

/// The SQLite text of an answer's synchronisation state.
pub fn sync_state_as_str(state: &AnswerSyncState) -> (text: &'static str)
    ensures
        text@ == sync_state_text(*state),
{
    match state {
        AnswerSyncState::Pending => "PENDING",
        AnswerSyncState::Synced => "SYNCED",
        AnswerSyncState::Error => "ERROR",
    }
}

/// The synchronisation state stored as `value`.
pub fn sync_state_from_str(value: &str) -> (r: Result<AnswerSyncState, AppError>)
    ensures
        match r {
            Ok(state) => value@ == sync_state_text(state),
            Err(e) => value@ != "PENDING"@ && value@ != "SYNCED"@ && value@ != "ERROR"@ && e@
                == ErrorView::Storage("stato risposta SQLite non valido: "@ + value@),
        },
{
    let v = String::from_str(value);
    if v == String::from_str("PENDING") {
        Ok(AnswerSyncState::Pending)
    } else if v == String::from_str("SYNCED") {
        Ok(AnswerSyncState::Synced)
    } else if v == String::from_str("ERROR") {
        Ok(AnswerSyncState::Error)
    } else {
        Err(AppError::Storage(String::from_str("stato risposta SQLite non valido: ").concat(value)))
    }
}

/// The SQLite text of an outbox entry's status.
pub open spec fn outbox_status_text(status: OutboxStatus) -> Seq<char> {
    match status {
        OutboxStatus::Pending => "PENDING"@,
        OutboxStatus::InFlight => "IN_FLIGHT"@,
        OutboxStatus::Error => "ERROR"@,
    }
}

/// The SQLite text of an outbox entry's status.
pub fn outbox_status_as_str(status: &OutboxStatus) -> (text: &'static str)
    ensures
        text@ == outbox_status_text(*status),
{
    match status {
        OutboxStatus::Pending => "PENDING",
        OutboxStatus::InFlight => "IN_FLIGHT",
        OutboxStatus::Error => "ERROR",
    }
}

/// The outbox status stored as `value`.
pub fn outbox_status_from_str(value: &str) -> (r: Result<OutboxStatus, AppError>)
    ensures
        match r {
            Ok(status) => value@ == outbox_status_text(status),
            Err(e) => value@ != "PENDING"@ && value@ != "IN_FLIGHT"@ && value@ != "ERROR"@ && e@
                == ErrorView::Storage("stato outbox SQLite non valido: "@ + value@),
        },
{
    let v = String::from_str(value);
    if v == String::from_str("PENDING") {
        Ok(OutboxStatus::Pending)
    } else if v == String::from_str("IN_FLIGHT") {
        Ok(OutboxStatus::InFlight)
    } else if v == String::from_str("ERROR") {
        Ok(OutboxStatus::Error)
    } else {
        Err(AppError::Storage(String::from_str("stato outbox SQLite non valido: ").concat(value)))
    }
}

/// The version of the SQLite schema that this client writes.
pub const SCHEMA_VERSION: i64 = 1;

/// The value of a text of ASCII digits.
pub open spec fn digits_value(s: Seq<char>) -> int
    decreases s.len(),
{
    if s.len() == 0 {
        0
    } else {
        digits_value(s.drop_last()) * 10 + (s.last() as int - '0' as int)
    }
}

/// One or more ASCII digits.
pub open spec fn ascii_digits(s: Seq<char>) -> bool {
    s.len() > 0 && forall|i: int| 0 <= i < s.len() ==> '0' <= #[trigger] s[i] <= '9'
}

/// The integer that a text writes as an optional sign followed by one or
/// more ASCII digits, if it is one.
pub open spec fn integer_text_value(s: Seq<char>) -> Option<int> {
    if s.len() > 0 && (s[0] == '+' || s[0] == '-') && ascii_digits(s.drop_first()) {
        Some(
            if s[0] == '-' {
                -digits_value(s.drop_first())
            } else {
                digits_value(s.drop_first())
            },
        )
    } else if ascii_digits(s) {
        Some(digits_value(s))
    } else {
        None
    }
}

/// The `i64` that `str::parse::<i64>` reads from a text, if any.
pub open spec fn parsed_i64(s: Seq<char>) -> Option<i64> {
    match integer_text_value(s) {
        Some(v) => if i64::MIN <= v <= i64::MAX {
            Some(v as i64)
        } else {
            None
        },
        None => None,
    }
}

/// A text of ASCII digits is worth nothing less than zero.
proof fn lemma_digits_nonnegative(t: Seq<char>)
    requires
        forall|i: int| 0 <= i < t.len() ==> '0' <= #[trigger] t[i] <= '9',
    ensures
        digits_value(t) >= 0,
    decreases t.len(),
{
    if t.len() > 0 {
        lemma_digits_nonnegative(t.drop_last());
    }
}

/// A prefix of a text of ASCII digits is worth no more than the whole text.
proof fn lemma_digits_prefix(t: Seq<char>, k: int)
    requires
        0 <= k <= t.len(),
        forall|i: int| 0 <= i < t.len() ==> '0' <= #[trigger] t[i] <= '9',
    ensures
        digits_value(t.take(k)) <= digits_value(t),
    decreases t.len(),
{
    if k == t.len() {
        assert(t.take(k) =~= t);
    } else {
        lemma_digits_prefix(t.drop_last(), k);
        assert(t.drop_last().take(k) =~= t.take(k));
        lemma_digits_nonnegative(t.drop_last());
    }
}

/// The `i64` that a text writes, as `str::parse::<i64>` reads it: an
/// optional `+` or `-` sign followed by one or more ASCII digits, whose
/// value fits `i64`; anything else is refused.
fn parse_i64(text: &str) -> (r: Option<i64>)
    ensures
        r == parsed_i64(text@),
{
    let ghost s = text@;
    let n = text.unicode_len();
    if n == 0 {
        return None;
    }
    let first = text.get_char(0);
    let negative = first == '-';
    let start: usize = if first == '+' || first == '-' {
        1
    } else {
        0
    };
    if start == n {
        return None;
    }
    let ghost t = s.subrange(start as int, n as int);
    proof {
        if start == 1 {
            assert(t =~= s.drop_first());
        } else {
            assert(t =~= s);
        }
    }
    let limit: u64 = if negative {
        9223372036854775808
    } else {
        9223372036854775807
    };
    let mut acc: u64 = 0;
    let mut i: usize = start;
    proof {
        assert(s.subrange(start as int, start as int) =~= Seq::<char>::empty());
    }
    while i < n
        invariant
            s == text@,
            n == s.len(),
            0 <= start <= i <= n,
            start <= 1,
            start < n,
            start == 1 <==> (s[0] == '+' || s[0] == '-'),
            negative <==> s[0] == '-',
            t == s.subrange(start as int, n as int),
            start == 1 ==> t == s.drop_first(),
            start == 0 ==> t == s,
            limit == (if negative { 9223372036854775808u64 } else { 9223372036854775807u64 }),
            acc <= limit,
            acc == digits_value(s.subrange(start as int, i as int)),
            forall|j: int| start <= j < i ==> '0' <= #[trigger] s[j] <= '9',
        decreases n - i,
    {
        let c = text.get_char(i);
        if !('0' <= c && c <= '9') {
            proof {
                assert(t[i - start] == c);
                assert(!ascii_digits(t));
                if start == 0 {
                    assert(!ascii_digits(s));
                } else {
                    assert(!('0' <= s[0] <= '9'));
                    assert(!ascii_digits(s));
                }
            }
            return None;
        }
        let d: u64 = (c as u32 - '0' as u32) as u64;
        let ghost prefix = s.subrange(start as int, i + 1);
        proof {
            assert(prefix.drop_last() =~= s.subrange(start as int, i as int));
            assert(prefix.last() == c);
            assert(digits_value(prefix) == acc * 10 + d);
        }
        let next = match acc.checked_mul(10) {
            Some(m) => m.checked_add(d),
            None => None,
        };
        let fits = match next {
            Some(v) => v <= limit,
            None => false,
        };
        if !fits {
            proof {
                assert(digits_value(prefix) > limit);
                if ascii_digits(t) {
                    assert(t.take(i + 1 - start) =~= prefix);
                    lemma_digits_prefix(t, i + 1 - start);
                }
                if start == 1 {
                    assert(!('0' <= s[0] <= '9'));
                    assert(!ascii_digits(s));
                }
            }
            return None;
        }
        acc = acc * 10 + d;
        i = i + 1;
    }
    proof {
        assert(s.subrange(start as int, i as int) =~= t);
        assert(ascii_digits(t));
        if start == 1 {
            assert(!('0' <= s[0] <= '9'));
        }
    }
    if negative {
        if acc == 9223372036854775808u64 {
            Some(i64::MIN)
        } else {
            Some(-(acc as i64))
        }
    } else {
        Some(acc as i64)
    }
}

/// What the schema version stored in the SQLite file asks for: `Ok(true)`
/// when none is stored yet (the current one is to be recorded), `Ok(false)`
/// when it reads as the current one, an error for any other.
pub fn check_schema_version(stored: Option<&str>) -> (r: Result<bool, AppError>)
    ensures
        match stored {
            None => r == Ok::<bool, AppError>(true),
            Some(v) => match r {
                Ok(record) => !record && parsed_i64(v@) == Some(SCHEMA_VERSION),
                Err(e) => parsed_i64(v@) != Some(SCHEMA_VERSION) && e@ == ErrorView::Storage(
                    "versione schema SQLite non supportata: "@ + v@,
                ),
            },
        },
{
    match stored {
        None => Ok(true),
        Some(v) => {
            if parse_i64(v) == Some(SCHEMA_VERSION) {
                Ok(false)
            } else {
                Err(AppError::Storage(String::from_str("versione schema SQLite non supportata: ").concat(v)))
            }
        },
    }
}

/// A number as an SQLite integer.
pub fn to_i64(value: u64) -> (r: Result<i64, AppError>)
    ensures
        match r {
            Ok(v) => value <= sqlite_max() && v == value,
            Err(e) => value > sqlite_max() && e@ == too_large(value),
        },
{
    if value > 0x7fff_ffff_ffff_ffff {
        Err(too_large_error(value))
    } else {
        Ok(value as i64)
    }
}

/// An SQLite integer read for `field`, which must not be negative.
pub fn to_u64(value: i64, field: &str) -> (r: Result<u64, AppError>)
    ensures
        match r {
            Ok(v) => value >= 0 && v == value,
            Err(e) => value < 0 && e@ == ErrorView::Storage(
                "valore negativo per "@ + field@ + ": "@ + signed_decimal_text(value as int),
            ),
        },
{
    if value < 0 {
        Err(AppError::Storage(String::from_str("valore negativo per ").concat(field).concat(": ").concat(
            signed_decimal(value).as_str(),
        )))
    } else {
        Ok(value as u64)
    }
}

} // verus!
