//! Properties of the library that span several operations: what saving an
//! answer, sending it and the server's reply do to the store, how failed
//! sends are repeated, what a restart and a submission leave behind, and the
//! reconnection schedule.

use vstd::prelude::*;
use crate::model::{
    ClientConfig, ClientSnapshot, ClientState, AnswerSyncState, ConfigureClientInput, LocalAnswerView,
    QuestionnaireView, SaveAnswerInput, ServerAnswerView, SubmitData, fresh_snapshot,
};
use crate::clock::not_after;
use crate::outbox::after_ack;
use crate::text::{trim_end, trim_start, trimmed, white_space};
use crate::protocol::{CommandResponse, decoded, save_answer_data_text};
use crate::session::{
    AttemptStarted, attempt_expired, configuration_of, entered_token, nonblank_setting, first_answer, reopened_snapshot, reopened_store, restarted,
    running, running_snapshot, saved_answer, submitted_snapshot, user_disconnected,
};
use crate::store::{
    AnswerRecord, OutboxRecord, OutboxStatus, OutboxEntryView, StoreView, acknowledged, answer_record, answers_loaded,
    cached, cleared, count_status, local_of, rebound, submit_completed,
    entry_of, failed, marked_in_flight, new_outbox_record, outbox_ordered, queued, recovered, retried, sendable,
    needs_queue, sqlite_max, server_merged, server_upsert, server_has, server_record, stale_synced, requeued_answers, requeued,
    reconciled,
};
use crate::transport::{backoff_seconds, state_after_loss, transport_up};

verus! {

// ---------------------------------------------------------------------------
// Helpers on the sending order
// ---------------------------------------------------------------------------

/// Every entry that may be sent is a pending row of the outbox.
proof fn lemma_sendable_members(s: Seq<OutboxRecord>)
    ensures
        forall|j: int|
            0 <= j < sendable(s).len() ==> (#[trigger] sendable(s)[j]).status == OutboxStatus::Pending
                && exists|i: int| 0 <= i < s.len() && s[i] == sendable(s)[j],
    decreases s.len(),
{
    if s.len() > 0 && s[0].status != OutboxStatus::Error {
        let rest = s.drop_first();
        lemma_sendable_members(rest);
        assert forall|j: int| 0 <= j < sendable(s).len() implies (#[trigger] sendable(s)[j]).status
            == OutboxStatus::Pending && exists|i: int| 0 <= i < s.len() && s[i] == sendable(s)[j] by {
            if s[0].status == OutboxStatus::Pending {
                if j == 0 {
                    assert(s[0] == sendable(s)[j]);
                } else {
                    assert(sendable(s)[j] == sendable(rest)[j - 1]);
                    let i = choose|i: int| 0 <= i < rest.len() && rest[i] == sendable(rest)[j - 1];
                    assert(s[i + 1] == sendable(s)[j]);
                }
            } else {
                let i = choose|i: int| 0 <= i < rest.len() && rest[i] == sendable(rest)[j];
                assert(s[i + 1] == sendable(s)[j]);
            }
        }
    }
}

/// Two outboxes whose rows agree, one for one, in status and in the request
/// they carry hand out the same requests in the same order.
proof fn lemma_sendable_same_requests(s: Seq<OutboxRecord>, t: Seq<OutboxRecord>)
    requires
        s.len() == t.len(),
        forall|i: int| 0 <= i < s.len() ==> (#[trigger] s[i]).status == t[i].status && entry_of(s[i]) == entry_of(t[i]),
    ensures
        sendable(s).len() == sendable(t).len(),
        forall|j: int| 0 <= j < sendable(s).len() ==> entry_of(#[trigger] sendable(s)[j]) == entry_of(sendable(t)[j]),
    decreases s.len(),
{
    if s.len() > 0 {
        let (rs, rt) = (s.drop_first(), t.drop_first());
        assert forall|i: int| 0 <= i < rs.len() implies (#[trigger] rs[i]).status == rt[i].status && entry_of(rs[i])
            == entry_of(rt[i]) by {
            assert(rs[i] == s[i + 1] && rt[i] == t[i + 1]);
        }
        lemma_sendable_same_requests(rs, rt);
        assert(s[0].status == t[0].status && entry_of(s[0]) == entry_of(t[0]));
        if s[0].status == OutboxStatus::Pending {
            assert forall|j: int| 0 <= j < sendable(s).len() implies entry_of(#[trigger] sendable(s)[j]) == entry_of(
                sendable(t)[j],
            ) by {
                if j > 0 {
                    assert(sendable(s)[j] == sendable(rs)[j - 1]);
                    assert(sendable(t)[j] == sendable(rt)[j - 1]);
                }
            }
        }
    }
}

/// A pending row added behind an outbox without failed rows joins the end
/// of the sending order.
proof fn lemma_sendable_push(s: Seq<OutboxRecord>, x: OutboxRecord)
    requires
        forall|i: int| 0 <= i < s.len() ==> (#[trigger] s[i]).status != OutboxStatus::Error,
        x.status == OutboxStatus::Pending,
    ensures
        sendable(s.push(x)) == sendable(s).push(x),
    decreases s.len(),
{
    if s.len() == 0 {
        let e = s.push(x).drop_first();
        assert(e =~= Seq::<OutboxRecord>::empty());
        assert(s.push(x)[0] == x);
        assert(sendable(e) == e);
        assert(sendable(s.push(x)) =~= seq![x]);
        assert(sendable(s) =~= Seq::<OutboxRecord>::empty());
    } else {
        let rest = s.drop_first();
        assert forall|i: int| 0 <= i < rest.len() implies (#[trigger] rest[i]).status != OutboxStatus::Error by {
            assert(rest[i] == s[i + 1]);
        }
        lemma_sendable_push(rest, x);
        assert(s.push(x).drop_first() =~= rest.push(x));
        assert(s.push(x)[0] == s[0]);
        if s[0].status == OutboxStatus::Pending {
            assert(sendable(s.push(x)) =~= seq![s[0]] + sendable(rest).push(x));
            assert(sendable(s).push(x) =~= seq![s[0]] + sendable(rest).push(x));
        }
    }
}

/// The first entry that may be sent is a pending row behind rows that are
/// all in flight.
proof fn lemma_sendable_head(s: Seq<OutboxRecord>)
    requires
        sendable(s).len() > 0,
    ensures
        exists|i: int|
            0 <= i < s.len() && s[i] == sendable(s)[0] && s[i].status == OutboxStatus::Pending && forall|j: int|
                0 <= j < i ==> (#[trigger] s[j]).status == OutboxStatus::InFlight,
    decreases s.len(),
{
    if s[0].status == OutboxStatus::InFlight {
        let rest = s.drop_first();
        lemma_sendable_head(rest);
        let i = choose|i: int|
            0 <= i < rest.len() && rest[i] == sendable(rest)[0] && rest[i].status == OutboxStatus::Pending && forall|j: int|
                0 <= j < i ==> (#[trigger] rest[j]).status == OutboxStatus::InFlight;
        assert forall|j: int| 0 <= j < i + 1 implies (#[trigger] s[j]).status == OutboxStatus::InFlight by {
            if j > 0 {
                assert(s[j] == rest[j - 1]);
            }
        }
        assert(s[i + 1] == sendable(s)[0]);
    } else {
        assert(s[0] == sendable(s)[0]);
    }
}

/// A pending row behind rows that are all in flight is the first entry that
/// may be sent.
proof fn lemma_sendable_first(s: Seq<OutboxRecord>, i: int)
    requires
        0 <= i < s.len(),
        s[i].status == OutboxStatus::Pending,
        forall|j: int| 0 <= j < i ==> (#[trigger] s[j]).status == OutboxStatus::InFlight,
    ensures
        sendable(s).len() > 0,
        sendable(s)[0] == s[i],
    decreases i,
{
    if i > 0 {
        let rest = s.drop_first();
        assert forall|j: int| 0 <= j < i - 1 implies (#[trigger] rest[j]).status == OutboxStatus::InFlight by {
            assert(rest[j] == s[j + 1]);
        }
        assert(s[0].status == OutboxStatus::InFlight);
        lemma_sendable_first(rest, i - 1);
    }
}

// ---------------------------------------------------------------------------
// The outbox
// ---------------------------------------------------------------------------

/// Every outbox entry is counted exactly once, as pending (or in flight) or
/// as failed; so the outbox is empty exactly when neither count is positive.
pub proof fn lemma_outbox_counts_cover(s: Seq<OutboxRecord>)
    ensures
        count_status(s, false) + count_status(s, true) == s.len(),
    decreases s.len(),
{
    if s.len() > 0 {
        lemma_outbox_counts_cover(s.drop_last());
    }
}

/// The outbox sends its entries in the order they were queued: the entries
/// that may be sent have strictly increasing sequence numbers.
pub proof fn lemma_sent_in_sequence_order(s: Seq<OutboxRecord>, last: i64)
    requires
        outbox_ordered(s, last),
    ensures
        forall|i: int, j: int| 0 <= i < j < sendable(s).len() ==> sendable(s)[i].sequence < sendable(s)[j].sequence,
    decreases s.len(),
{
    if s.len() > 0 && s[0].status != OutboxStatus::Error {
        let rest = s.drop_first();
        assert(outbox_ordered(rest, last)) by {
            assert forall|i: int| 0 <= i < rest.len() implies rest[i] == s[i + 1] by {}
        }
        lemma_sent_in_sequence_order(rest, last);
        lemma_sendable_members(rest);
        if s[0].status == OutboxStatus::Pending {
            assert forall|i: int, j: int| 0 <= i < j < sendable(s).len() implies sendable(s)[i].sequence < sendable(
                s,
            )[j].sequence by {
                assert(sendable(s)[j] == sendable(rest)[j - 1]);
                if i == 0 {
                    let k = choose|k: int| 0 <= k < rest.len() && rest[k] == sendable(rest)[j - 1];
                    assert(rest[k] == s[k + 1]);
                } else {
                    assert(sendable(s)[i] == sendable(rest)[i - 1]);
                }
            }
        }
    }
}

/// Saving an answer writes, in one transaction, the answer and its outbox
/// entry: the entry comes last in the outbox, pending, never attempted, and
/// carries the save-answer request for the answer. When no failed entry
/// holds the outbox back, it is the last entry to be sent.
pub proof fn lemma_queue_writes_answer_and_entry(
    v: StoreView,
    compilation_id: Seq<char>,
    a: LocalAnswerView,
    request_id: Seq<char>,
)
    requires
        queued(v, compilation_id, a, request_id) is Ok,
    ensures
        ({
            let w = queued(v, compilation_id, a, request_id)->Ok_0;
            &&& w.answers == v.answers.insert((compilation_id, a.question_id), answer_record(compilation_id, a))
            &&& w.outbox == v.outbox.push(
                new_outbox_record(w.last_sequence, request_id, compilation_id, a.question_id, a.client_revision, a.answer),
            )
            &&& w.last_sequence == v.last_sequence + 1
            &&& entry_of(w.outbox.last()).request_id == request_id
            &&& entry_of(w.outbox.last()).payload == save_answer_data_text(
                compilation_id,
                a.question_id,
                a.client_revision,
                a.answer,
            )
            &&& (forall|i: int| 0 <= i < v.outbox.len() ==> (#[trigger] v.outbox[i]).status != OutboxStatus::Error)
                ==> sendable(w.outbox) == sendable(v.outbox).push(w.outbox.last())
        }),
{
    let w = queued(v, compilation_id, a, request_id)->Ok_0;
    let x = new_outbox_record(w.last_sequence, request_id, compilation_id, a.question_id, a.client_revision, a.answer);
    if forall|i: int| 0 <= i < v.outbox.len() ==> (#[trigger] v.outbox[i]).status != OutboxStatus::Error {
        lemma_sendable_push(v.outbox, x);
    }
}

/// What loading the answers of a compilation gives back after saving one:
/// the saved answer, as it was saved.
pub proof fn lemma_saved_answer_read_back(
    v: StoreView,
    compilation_id: Seq<char>,
    a: LocalAnswerView,
    request_id: Seq<char>,
    loaded: Seq<LocalAnswerView>,
)
    requires
        queued(v, compilation_id, a, request_id) is Ok,
        answers_loaded(queued(v, compilation_id, a, request_id)->Ok_0.answers, compilation_id, loaded),
    ensures
        exists|i: int| 0 <= i < loaded.len() && loaded[i] == a,
{
    let w = queued(v, compilation_id, a, request_id)->Ok_0;
    assert(w.answers.dom().contains((compilation_id, a.question_id)));
    let i = choose|i: int| 0 <= i < loaded.len() && #[trigger] loaded[i].question_id == a.question_id;
    assert(local_of(answer_record(compilation_id, a)) == a);
    assert(loaded[i] == a);
}

/// What reading the questionnaire cache gives back after caching a
/// questionnaire for a compilation: that questionnaire.
pub proof fn lemma_cached_questionnaire_read_back(v: StoreView, compilation_id: Seq<char>, q: QuestionnaireView)
    requires
        cached(v, compilation_id, q) is Ok,
    ensures
        cached(v, compilation_id, q)->Ok_0.questionnaires.dom().contains(compilation_id),
        cached(v, compilation_id, q)->Ok_0.questionnaires[compilation_id].questionnaire == q,
{
}

/// A local answer reads back as long as its row holds it: loading the
/// answers of its compilation gives it back, field by field, and every
/// answer loaded belongs to that compilation.
pub proof fn lemma_answer_reads_back(
    m: Map<(Seq<char>, Seq<char>), AnswerRecord>,
    compilation_id: Seq<char>,
    a: LocalAnswerView,
    loaded: Seq<LocalAnswerView>,
)
    requires
        m.dom().contains((compilation_id, a.question_id)),
        m[(compilation_id, a.question_id)] == answer_record(compilation_id, a),
        answers_loaded(m, compilation_id, loaded),
    ensures
        exists|i: int| 0 <= i < loaded.len() && loaded[i] == a,
        forall|i: int| 0 <= i < loaded.len() ==> m.dom().contains((compilation_id, #[trigger] loaded[i].question_id)),
{
    let i = choose|i: int| 0 <= i < loaded.len() && #[trigger] loaded[i].question_id == a.question_id;
    assert(local_of(answer_record(compilation_id, a)) == a);
    assert(loaded[i] == a);
}

/// Operations that do not write a local answer keep its row as it is: the
/// sending bookkeeping of the outbox, storing the client state, caching a
/// questionnaire, saving, acknowledging or failing the answer to another
/// question, and retrying failed entries when the answer has not failed.
pub proof fn lemma_answer_kept_by_other_operations(
    v: StoreView,
    k: (Seq<char>, Seq<char>),
    sequence: i64,
    config: ClientConfig,
    snapshot: ClientSnapshot,
    cache_for: Seq<char>,
    q: QuestionnaireView,
    saved_in: Seq<char>,
    saved: LocalAnswerView,
    request_id: Seq<char>,
    entry: OutboxEntryView,
    server_revision: u64,
    message: Seq<char>,
    retryable: bool,
)
    requires
        v.answers.dom().contains(k),
    ensures
        marked_in_flight(v, sequence).answers == v.answers,
        (StoreView { state: Some((config, snapshot)), ..v }).answers == v.answers,
        cached(v, cache_for, q) is Ok ==> cached(v, cache_for, q)->Ok_0.answers == v.answers,
        queued(v, saved_in, saved, request_id) is Ok && k != (saved_in, saved.question_id) ==> {
            let w = queued(v, saved_in, saved, request_id)->Ok_0;
            w.answers.dom().contains(k) && w.answers[k] == v.answers[k]
        },
        acknowledged(v, entry, server_revision) is Ok && k != (entry.compilation_id, entry.question_id) ==> {
            let w = acknowledged(v, entry, server_revision)->Ok_0;
            w.answers.dom().contains(k) && w.answers[k] == v.answers[k]
        },
        failed(v, entry, message, retryable) is Ok && k != (entry.compilation_id, entry.question_id) ==> {
            let w = failed(v, entry, message, retryable)->Ok_0;
            w.answers.dom().contains(k) && w.answers[k] == v.answers[k]
        },
        v.answers[k].sync_state != AnswerSyncState::Error ==> retried(v).answers.dom().contains(k)
            && retried(v).answers[k] == v.answers[k],
{
}

/// Only storing the state (also by importing a checkpoint, completing a
/// submit or recreating the store) writes it: every other operation keeps
/// the stored client state, which `load_state` then gives back.
pub proof fn lemma_state_kept_by_other_operations(
    v: StoreView,
    sequence: i64,
    cache_for: Seq<char>,
    q: QuestionnaireView,
    saved_in: Seq<char>,
    saved: LocalAnswerView,
    request_id: Seq<char>,
    entry: OutboxEntryView,
    server_revision: u64,
    message: Seq<char>,
    retryable: bool,
    from: Seq<char>,
    to: Seq<char>,
)
    ensures
        marked_in_flight(v, sequence).state == v.state,
        cached(v, cache_for, q) is Ok ==> cached(v, cache_for, q)->Ok_0.state == v.state,
        queued(v, saved_in, saved, request_id) is Ok ==> queued(v, saved_in, saved, request_id)->Ok_0.state == v.state,
        acknowledged(v, entry, server_revision) is Ok ==> acknowledged(v, entry, server_revision)->Ok_0.state == v.state,
        failed(v, entry, message, retryable) is Ok ==> failed(v, entry, message, retryable)->Ok_0.state == v.state,
        retried(v).state == v.state,
        cleared(v).state == v.state,
        rebound(v, from, to).state == v.state,
{
}

/// Only caching, clearing, completing a submit, moving a compilation or
/// recreating the store writes the questionnaire cache: the other
/// operations, and caching or completing the submit of another
/// compilation, keep the cached questionnaire of a compilation, which
/// `load_cached_questionnaire` then gives back.
pub proof fn lemma_cache_kept_by_other_operations(
    v: StoreView,
    c: Seq<char>,
    sequence: i64,
    config: ClientConfig,
    snapshot: ClientSnapshot,
    cache_for: Seq<char>,
    q: QuestionnaireView,
    saved_in: Seq<char>,
    saved: LocalAnswerView,
    request_id: Seq<char>,
    entry: OutboxEntryView,
    server_revision: u64,
    message: Seq<char>,
    retryable: bool,
    submitted: Seq<char>,
)
    requires
        v.questionnaires.dom().contains(c),
    ensures
        marked_in_flight(v, sequence).questionnaires == v.questionnaires,
        (StoreView { state: Some((config, snapshot)), ..v }).questionnaires == v.questionnaires,
        cached(v, cache_for, q) is Ok && cache_for != c ==> {
            let w = cached(v, cache_for, q)->Ok_0;
            w.questionnaires.dom().contains(c) && w.questionnaires[c] == v.questionnaires[c]
        },
        queued(v, saved_in, saved, request_id) is Ok ==> queued(v, saved_in, saved, request_id)->Ok_0.questionnaires
            == v.questionnaires,
        acknowledged(v, entry, server_revision) is Ok ==> acknowledged(v, entry, server_revision)->Ok_0.questionnaires
            == v.questionnaires,
        failed(v, entry, message, retryable) is Ok ==> failed(v, entry, message, retryable)->Ok_0.questionnaires
            == v.questionnaires,
        retried(v).questionnaires == v.questionnaires,
        submitted != c ==> {
            let w = submit_completed(v, config, snapshot, submitted);
            w.questionnaires.dom().contains(c) && w.questionnaires[c] == v.questionnaires[c]
        },
        cleared(v).questionnaires.len() == 0,
{
    assert(cleared(v).questionnaires =~= Map::empty());
}

/// The server's acknowledgement removes the entry from the outbox and gives
/// the answer the server revision. The answer becomes synchronised only when
/// its revision is the one that was sent: an acknowledgement of an older
/// revision leaves a newer local change as it was.
pub proof fn lemma_ack_removes_entry_and_syncs(v: StoreView, entry: OutboxEntryView, server_revision: u64)
    requires
        acknowledged(v, entry, server_revision) is Ok,
    ensures
        ({
            let w = acknowledged(v, entry, server_revision)->Ok_0;
            let k = (entry.compilation_id, entry.question_id);
            &&& forall|i: int| 0 <= i < w.outbox.len() ==> (#[trigger] w.outbox[i]).sequence != entry.sequence
            &&& forall|i: int|
                0 <= i < v.outbox.len() && (#[trigger] v.outbox[i]).sequence != entry.sequence ==> w.outbox.contains(
                    v.outbox[i],
                )
            &&& v.answers.dom().contains(k) ==> w.answers[k].server_revision == Some(server_revision)
            &&& v.answers.dom().contains(k) && v.answers[k].client_revision == entry.client_revision ==> w.answers[k].sync_state
                == AnswerSyncState::Synced && w.answers[k].last_error is None
            &&& v.answers.dom().contains(k) && v.answers[k].client_revision != entry.client_revision ==> w.answers[k].sync_state
                == v.answers[k].sync_state && w.answers[k].answer_json == v.answers[k].answer_json
        }),
{
    broadcast use vstd::seq_lib::group_filter_ensures;

}

/// A failure that may be retried sends the same request again: after the
/// first entry that may be sent was handed out and failed in that way, the
/// next pass hands out the same request identifier, revision and payload.
#[verifier::spinoff_prover]
pub proof fn lemma_retryable_failure_resends_same_request(v: StoreView, message: Seq<char>)
    requires
        outbox_ordered(v.outbox, v.last_sequence),
        sendable(v.outbox).len() > 0,
    ensures
        ({
            let first = entry_of(sendable(v.outbox)[0]);
            let sent = marked_in_flight(v, first.sequence);
            &&& failed(sent, first, message, true) is Ok
            &&& sendable(failed(sent, first, message, true)->Ok_0.outbox).len() > 0
            &&& entry_of(sendable(failed(sent, first, message, true)->Ok_0.outbox)[0]) == first
        }),
{
    let s = v.outbox;
    let r0 = sendable(s)[0];
    let first = entry_of(r0);
    lemma_sendable_members(s);
    let i0 = choose|i: int| 0 <= i < s.len() && s[i] == sendable(s)[0];
    assert(s[i0] == r0 && r0.status == OutboxStatus::Pending);
    assert(r0.client_revision <= sqlite_max());
    let sent = marked_in_flight(v, first.sequence);
    let w = failed(sent, first, message, true)->Ok_0;
    let t = w.outbox;
    assert forall|i: int| 0 <= i < s.len() implies (#[trigger] s[i]).status == t[i].status && entry_of(s[i])
        == entry_of(t[i]) by {
        assert(t[i] == (if sent.outbox[i].sequence == first.sequence {
            OutboxRecord { status: OutboxStatus::Pending, last_error: Some(message), ..sent.outbox[i] }
        } else {
            sent.outbox[i]
        }));
        if s[i].sequence == first.sequence {
            if i != i0 {
                if i < i0 {
                    assert(s[i].sequence < s[i0].sequence);
                } else {
                    assert(s[i0].sequence < s[i].sequence);
                }
            }
        }
    }
    lemma_sendable_same_requests(s, t);
}

/// The outbox after the pending row `i0`, behind rows that are all in
/// flight, was handed out, refused, and the failed rows retried: the same
/// request is the first to be sent.
proof fn lemma_refusal_then_retry(v: StoreView, i0: int, message: Seq<char>)
    requires
        0 <= i0 < v.outbox.len(),
        v.outbox[i0].status == OutboxStatus::Pending,
        forall|j: int| 0 <= j < i0 ==> (#[trigger] v.outbox[j]).status == OutboxStatus::InFlight,
        forall|j: int|
            0 <= j < v.outbox.len() && j != i0 ==> (#[trigger] v.outbox[j]).sequence != v.outbox[i0].sequence,
        v.outbox[i0].client_revision <= sqlite_max(),
    ensures
        ({
            let first = entry_of(v.outbox[i0]);
            let sent = marked_in_flight(v, first.sequence);
            &&& failed(sent, first, message, false) is Ok
            &&& sendable(retried(failed(sent, first, message, false)->Ok_0).outbox).len() > 0
            &&& entry_of(sendable(retried(failed(sent, first, message, false)->Ok_0).outbox)[0]) == first
        }),
{
    let s = v.outbox;
    let first = entry_of(s[i0]);
    let sent = marked_in_flight(v, first.sequence);
    let w = failed(sent, first, message, false)->Ok_0;
    let t = retried(w).outbox;
    assert forall|j: int| 0 <= j < i0 implies (#[trigger] t[j]).status == OutboxStatus::InFlight by {
        assert(s[j].sequence != s[i0].sequence);
        assert(sent.outbox[j] == s[j]);
        assert(w.outbox[j] == s[j]);
    }
    assert(t[i0].status == OutboxStatus::Pending);
    assert(entry_of(t[i0]) == first);
    lemma_sendable_first(t, i0);
}

/// An entry that the server refused is sent again, as it was, once the user
/// retries the failed entries: after the first entry that may be sent was
/// handed out, refused (a failure that may not be retried) and the failed
/// entries retried, the next pass hands out the same request identifier,
/// revision and payload.
#[verifier::spinoff_prover]
pub proof fn lemma_refused_entry_resent_after_retry(v: StoreView, message: Seq<char>)
    requires
        outbox_ordered(v.outbox, v.last_sequence),
        sendable(v.outbox).len() > 0,
    ensures
        ({
            let first = entry_of(sendable(v.outbox)[0]);
            let sent = marked_in_flight(v, first.sequence);
            &&& failed(sent, first, message, false) is Ok
            &&& sendable(retried(failed(sent, first, message, false)->Ok_0).outbox).len() > 0
            &&& entry_of(sendable(retried(failed(sent, first, message, false)->Ok_0).outbox)[0]) == first
        }),
{
    let s = v.outbox;
    lemma_sendable_head(s);
    let i0 = choose|i: int|
        0 <= i < s.len() && s[i] == sendable(s)[0] && s[i].status == OutboxStatus::Pending && forall|j: int|
            0 <= j < i ==> (#[trigger] s[j]).status == OutboxStatus::InFlight;
    assert forall|j: int| 0 <= j < s.len() && j != i0 implies (#[trigger] s[j]).sequence != s[i0].sequence by {
        if j < i0 {
            assert(s[j].sequence < s[i0].sequence);
        } else {
            assert(s[i0].sequence < s[j].sequence);
        }
    }
    lemma_refusal_then_retry(v, i0, message);
}

/// An entry left in flight when the client stopped is pending again when
/// the store is reopened, carrying the same request: reopening hands it out
/// again with the same request identifier, revision and payload.
pub proof fn lemma_reopening_resends_in_flight(s: Seq<OutboxRecord>, i: int)
    requires
        0 <= i < s.len(),
        s[i].status == OutboxStatus::InFlight,
    ensures
        s.map_values(|r: OutboxRecord| recovered(r))[i].status == OutboxStatus::Pending,
        entry_of(s.map_values(|r: OutboxRecord| recovered(r))[i]) == entry_of(s[i]),
{
}

/// The row of question `q` of compilation `c` after merging the server's
/// answers `s` into the row `o`, one upsert at a time.
pub open spec fn merged_row(
    o: Option<AnswerRecord>,
    c: Seq<char>,
    q: Seq<char>,
    s: Seq<ServerAnswerView>,
) -> Option<AnswerRecord>
    decreases s.len(),
{
    if s.len() == 0 {
        o
    } else {
        let p = merged_row(o, c, q, s.drop_last());
        let x = s.last();
        if x.question_id == q && (p is None || (p->0.sync_state == AnswerSyncState::Synced && x.client_revision
            >= p->0.client_revision)) {
            Some(server_record(c, x))
        } else {
            p
        }
    }
}

/// The last of the server's answers to question `q` with client revision
/// `r`, if any.
pub open spec fn last_with_revision(s: Seq<ServerAnswerView>, q: Seq<char>, r: u64) -> Option<ServerAnswerView>
    decreases s.len(),
{
    if s.len() == 0 {
        None
    } else if s.last().question_id == q && s.last().client_revision == r {
        Some(s.last())
    } else {
        last_with_revision(s.drop_last(), q, r)
    }
}

/// Merging changes each row as `merged_row` says, and only the rows of the
/// compilation.
proof fn lemma_merged_rows(
    m: Map<(Seq<char>, Seq<char>), AnswerRecord>,
    c: Seq<char>,
    s: Seq<ServerAnswerView>,
)
    ensures
        forall|q: Seq<char>| #[trigger] server_merged(m, c, s).get((c, q)) == merged_row(m.get((c, q)), c, q, s),
        forall|k: (Seq<char>, Seq<char>)| k.0 != c ==> #[trigger] server_merged(m, c, s).get(k) == m.get(k),
    decreases s.len(),
{
    if s.len() > 0 {
        lemma_merged_rows(m, c, s.drop_last());
        let mp = server_merged(m, c, s.drop_last());
        let x = s.last();
        assert(server_merged(m, c, s) == server_upsert(mp, c, x));
        assert forall|q: Seq<char>| #[trigger] server_merged(m, c, s).get((c, q)) == merged_row(m.get((c, q)), c, q, s) by {
            assert(merged_row(m.get((c, q)), c, q, s.drop_last()) == mp.get((c, q)));
        }
        assert forall|k: (Seq<char>, Seq<char>)| k.0 != c implies #[trigger] server_merged(m, c, s).get(k) == m.get(k) by {
            assert(k != (c, x.question_id));
            assert(mp.get(k) == m.get(k));
            assert(server_upsert(mp, c, x).dom().contains(k) == mp.dom().contains(k));
            assert(mp.dom().contains(k) ==> server_upsert(mp, c, x)[k] == mp[k]);
        }
    }
}

/// A row with local changes not yet confirmed is never replaced.
proof fn lemma_merged_row_unconfirmed(o: Option<AnswerRecord>, c: Seq<char>, q: Seq<char>, s: Seq<ServerAnswerView>)
    requires
        o matches Some(a) && a.sync_state != AnswerSyncState::Synced,
    ensures
        merged_row(o, c, q, s) == o,
    decreases s.len(),
{
    if s.len() > 0 {
        lemma_merged_row_unconfirmed(o, c, q, s.drop_last());
    }
}

/// From an empty or synchronised row, the merged row is synchronised, its
/// revision at least the start's and every server answer's to the question;
/// it is empty only if it started empty and no answer names the question;
/// and it is the server's copy of the last answer with its revision, when
/// there is one.
proof fn lemma_merged_row_max(o: Option<AnswerRecord>, c: Seq<char>, q: Seq<char>, s: Seq<ServerAnswerView>)
    requires
        o is None || o->0.sync_state == AnswerSyncState::Synced,
    ensures
        merged_row(o, c, q, s) is None ==> o is None && forall|i: int| 0 <= i < s.len() ==> (#[trigger] s[i]).question_id != q,
        merged_row(o, c, q, s) matches Some(u) ==> {
            &&& u.sync_state == AnswerSyncState::Synced
            &&& (o matches Some(a) ==> a.client_revision <= u.client_revision)
            &&& forall|i: int| 0 <= i < s.len() && (#[trigger] s[i]).question_id == q ==> s[i].client_revision
                <= u.client_revision
            &&& last_with_revision(s, q, u.client_revision) matches Some(x) ==> u == server_record(c, x)
        },
    decreases s.len(),
{
    if s.len() > 0 {
        let p = s.drop_last();
        lemma_merged_row_max(o, c, q, p);
        let x = s.last();
        assert forall|i: int| 0 <= i < s.len() - 1 implies s[i] == p[i] by {}
        let pr = merged_row(o, c, q, p);
        if x.question_id == q && (pr is None || (pr->0.sync_state == AnswerSyncState::Synced && x.client_revision
            >= pr->0.client_revision)) {
            assert(merged_row(o, c, q, s) == Some(server_record(c, x)));
            assert(last_with_revision(s, q, x.client_revision) == Some(x));
        } else {
            assert(merged_row(o, c, q, s) == pr);
            if let Some(u) = pr {
                if x.question_id == q {
                    assert(x.client_revision < u.client_revision);
                }
                assert(last_with_revision(s, q, u.client_revision) == last_with_revision(p, q, u.client_revision));
            }
        }
    }
}

/// From a synchronised row whose revision no server answer to the question
/// exceeds, merging gives the server's copy of the last answer with that
/// revision, or the row itself when there is none.
proof fn lemma_merged_row_from_top(w: AnswerRecord, c: Seq<char>, q: Seq<char>, s: Seq<ServerAnswerView>)
    requires
        w.sync_state == AnswerSyncState::Synced,
        forall|i: int| 0 <= i < s.len() && (#[trigger] s[i]).question_id == q ==> s[i].client_revision <= w.client_revision,
    ensures
        merged_row(Some(w), c, q, s) == match last_with_revision(s, q, w.client_revision) {
            Some(x) => Some(server_record(c, x)),
            None => Some(w),
        },
    decreases s.len(),
{
    if s.len() > 0 {
        let p = s.drop_last();
        assert forall|i: int| 0 <= i < p.len() && (#[trigger] p[i]).question_id == q implies p[i].client_revision
            <= w.client_revision by {
            assert(p[i] == s[i]);
        }
        lemma_merged_row_from_top(w, c, q, p);
        lemma_last_with_revision(p, q, w.client_revision);
        let x = s.last();
        assert(s[s.len() - 1] == x);
        let pr = merged_row(Some(w), c, q, p);
        assert(pr is Some && pr->0.sync_state == AnswerSyncState::Synced && pr->0.client_revision == w.client_revision);
        if x.question_id == q {
            if x.client_revision == w.client_revision {
                assert(last_with_revision(s, q, w.client_revision) == Some(x));
            } else {
                assert(last_with_revision(s, q, w.client_revision) == last_with_revision(p, q, w.client_revision));
            }
        } else {
            assert(last_with_revision(s, q, w.client_revision) == last_with_revision(p, q, w.client_revision));
        }
    }
}

/// The last answer with a revision names the question and has the revision.
proof fn lemma_last_with_revision(s: Seq<ServerAnswerView>, q: Seq<char>, r: u64)
    ensures
        last_with_revision(s, q, r) matches Some(x) ==> x.question_id == q && x.client_revision == r,
    decreases s.len(),
{
    if s.len() > 0 {
        lemma_last_with_revision(s.drop_last(), q, r);
    }
}

/// Merging the same server answers a second time changes no row.
proof fn lemma_merged_row_twice(o: Option<AnswerRecord>, c: Seq<char>, q: Seq<char>, s: Seq<ServerAnswerView>)
    ensures
        merged_row(merged_row(o, c, q, s), c, q, s) == merged_row(o, c, q, s),
{
    if o matches Some(a) && a.sync_state != AnswerSyncState::Synced {
        lemma_merged_row_unconfirmed(o, c, q, s);
    } else {
        lemma_merged_row_max(o, c, q, s);
        match merged_row(o, c, q, s) {
            None => {
                lemma_merged_row_max(None, c, q, s);
                if merged_row(None, c, q, s) is Some {
                    let u = merged_row(None, c, q, s)->0;
                    assert(false) by {
                        lemma_merged_row_absent(c, q, s);
                    }
                }
            },
            Some(u) => {
                lemma_merged_row_from_top(u, c, q, s);
            },
        }
    }
}

/// With no server answer to the question, an empty row stays empty.
proof fn lemma_merged_row_absent(c: Seq<char>, q: Seq<char>, s: Seq<ServerAnswerView>)
    requires
        forall|i: int| 0 <= i < s.len() ==> (#[trigger] s[i]).question_id != q,
    ensures
        merged_row(None, c, q, s) is None,
    decreases s.len(),
{
    if s.len() > 0 {
        let p = s.drop_last();
        assert forall|i: int| 0 <= i < p.len() implies (#[trigger] p[i]).question_id != q by {
            assert(p[i] == s[i]);
        }
        lemma_merged_row_absent(c, q, p);
        assert(s[s.len() - 1] == s.last());
    }
}

/// Merging the same server answers a second time changes nothing.
proof fn lemma_merged_twice(m: Map<(Seq<char>, Seq<char>), AnswerRecord>, c: Seq<char>, s: Seq<ServerAnswerView>)
    ensures
        server_merged(server_merged(m, c, s), c, s) == server_merged(m, c, s),
{
    let m1 = server_merged(m, c, s);
    lemma_merged_rows(m, c, s);
    lemma_merged_rows(m1, c, s);
    let m2 = server_merged(m1, c, s);
    assert forall|k: (Seq<char>, Seq<char>)| #[trigger] m2.get(k) == m1.get(k) by {
        if k.0 == c {
            lemma_merged_row_twice(m.get(k), c, k.1, s);
            assert(m2.get((c, k.1)) == m1.get((c, k.1)));
            assert(k == (c, k.1));
        }
    }
    assert forall|k: (Seq<char>, Seq<char>)| m2.dom().contains(k) == m1.dom().contains(k) by {
        assert(m2.get(k) == m1.get(k));
    }
    assert forall|k: (Seq<char>, Seq<char>)| m2.dom().contains(k) implies m2[k] == m1[k] by {
        assert(m2.get(k) == m1.get(k));
    }
    assert(m2 =~= m1);
}

/// Reconciling a second time with the same server answers changes nothing:
/// the server's copies are already merged and the answers it lacks are
/// already back in line with their outbox entries, so nothing has to be
/// queued (and `reconcile_server_answers` owes success), and the result is
/// the store as it was.
pub proof fn lemma_reconcile_twice_changes_nothing(
    v: StoreView,
    c: Seq<char>,
    s: Seq<ServerAnswerView>,
    w: StoreView,
    w2: StoreView,
)
    requires
        reconciled(v, c, s, w),
    ensures
        !needs_queue(w, c, s),
        reconciled(w, c, s, w2) ==> w2 == w,
{
    let m1 = server_merged(v.answers, c, s);
    let m2 = server_merged(w.answers, c, s);
    lemma_merged_rows(v.answers, c, s);
    lemma_merged_rows(w.answers, c, s);
    lemma_merged_rows(m1, c, s);
    lemma_merged_twice(v.answers, c, s);
    assert(w.answers == requeued_answers(m1, c, s));
    assert forall|k: (Seq<char>, Seq<char>)| #[trigger] m2.get(k) == w.answers.get(k) by {
        if k.0 == c {
            if server_has(s, k.1) {
                assert(!stale_synced(m1, c, s, k.1));
                assert(w.answers.get(k) == m1.get(k));
                assert(m2.get((c, k.1)) == merged_row(w.answers.get((c, k.1)), c, k.1, s));
                assert(server_merged(m1, c, s).get((c, k.1)) == merged_row(m1.get((c, k.1)), c, k.1, s));
                assert(k == (c, k.1));
            } else {
                assert forall|i: int| 0 <= i < s.len() implies (#[trigger] s[i]).question_id != k.1 by {}
                if w.answers.get(k) is None {
                    lemma_merged_row_absent(c, k.1, s);
                } else if w.answers[k].sync_state != AnswerSyncState::Synced {
                    lemma_merged_row_unconfirmed(w.answers.get(k), c, k.1, s);
                } else {
                    if stale_synced(m1, c, s, k.1) {
                        assert(w.answers[k] == requeued(m1[k]));
                    }
                    assert(m1.dom().contains(k));
                    assert(!stale_synced(m1, c, s, k.1));
                    assert(false);
                }
                assert(k == (c, k.1));
            }
        }
    }
    assert(m2 =~= w.answers) by {
        assert forall|k: (Seq<char>, Seq<char>)| m2.dom().contains(k) == w.answers.dom().contains(k) by {
            assert(m2.get(k) == w.answers.get(k));
        }
        assert forall|k: (Seq<char>, Seq<char>)| m2.dom().contains(k) implies m2[k] == w.answers[k] by {
            assert(m2.get(k) == w.answers.get(k));
        }
    }
    assert forall|q: Seq<char>| !stale_synced(m2, c, s, q) by {
        let k = (c, q);
        if m2.dom().contains(k) && !server_has(s, q) {
            if stale_synced(m1, c, s, q) {
                assert(w.answers[k] == requeued(m1[k]));
            }
        }
    }
    if reconciled(w, c, s, w2) {
        let n = w.outbox.len() as int;
        let added = w2.outbox.skip(n);
        if added.len() > 0 {
            assert(stale_synced(m2, c, s, added[0].question_id));
        }
        assert(w2.outbox =~= w.outbox) by {
            assert(w2.outbox =~= w2.outbox.take(n) + added);
        }
        assert(w2.answers =~= w.answers) by {
            assert forall|k: (Seq<char>, Seq<char>)| w2.answers.dom().contains(k) implies w2.answers[k] == m2[k] by {
                assert(!stale_synced(m2, c, s, k.1));
            }
        }
    }
}

// ---------------------------------------------------------------------------
// Restart, expiry and submission
// ---------------------------------------------------------------------------

/// A submitted attempt never expires.
pub proof fn lemma_submitted_never_expires(s: ClientSnapshot, now: (i64, u32))
    requires
        s.state == ClientState::Submitted,
    ensures
        !attempt_expired(s, now),
{
}

/// After a restart the client is never connected, nor in a state that needs
/// a connection (connected, starting, running, submitting).
pub proof fn lemma_reopened_not_connected(config: ClientConfig, stored: ClientSnapshot, now: (i64, u32))
    ensures
        ({
            let s = reopened_snapshot(config, stored, now);
            &&& !s.websocket_connected
            &&& s.state != ClientState::Connected
            &&& s.state != ClientState::Starting
            &&& s.state != ClientState::Running
            &&& s.state != ClientState::Submitting
        }),
{
}

/// An attempt found expired at restart leaves nothing of the compilation
/// behind: no answers, no outbox, no cached questionnaire.
pub proof fn lemma_expired_attempt_cleared(v: StoreView, config: ClientConfig, stored: ClientSnapshot, now: (i64, u32))
    requires
        attempt_expired(stored, now),
    ensures
        reopened_store(v, config, stored, now).answers.len() == 0,
        reopened_store(v, config, stored, now).outbox.len() == 0,
        reopened_store(v, config, stored, now).questionnaires.len() == 0,
{
    assert(reopened_store(v, config, stored, now).answers =~= Map::empty());
    assert(reopened_store(v, config, stored, now).questionnaires =~= Map::empty());
}

/// Once submitted, an attempt stays submitted whatever the connection does:
/// connecting, losing the connection, the user disconnecting, a restart.
pub proof fn lemma_submitted_is_final(s: ClientSnapshot, token_loaded: bool)
    requires
        s.state == ClientState::Submitted,
    ensures
        transport_up(s, token_loaded).state == ClientState::Submitted,
        state_after_loss(s.state) == ClientState::Submitted,
        user_disconnected(s).state == ClientState::Submitted,
        restarted(s).state == ClientState::Submitted,
{
}

// ---------------------------------------------------------------------------
// Configuration, connection, saving and submission
// ---------------------------------------------------------------------------

/// The configured request timeout lies between one second and one minute: a
/// timeout given within those bounds is kept as given, one below or above
/// them becomes the nearer bound, and without one it is 8000 ms.
pub proof fn lemma_configured_timeout(input: ConfigureClientInput, config: ClientConfig)
    requires
        configuration_of(input, config),
    ensures
        1000 <= config.request_timeout_ms <= 60000,
        forall|t: u64| input.request_timeout_ms == Some(t) && 1000 <= t <= 60000 ==> config.request_timeout_ms == t,
        forall|t: u64| input.request_timeout_ms == Some(t) && t < 1000 ==> config.request_timeout_ms == 1000,
        forall|t: u64| input.request_timeout_ms == Some(t) && t > 60000 ==> config.request_timeout_ms == 60000,
        input.request_timeout_ms is None ==> config.request_timeout_ms == 8000,
{
}

/// When the connection comes up the client is connected and shows no error:
/// an offline attempt runs again when the token is loaded, a submitted
/// attempt stays submitted, and every other state becomes connected. The
/// endpoint, the identifiers and the data of the attempt are kept.
pub proof fn lemma_connection_up(s: ClientSnapshot, token_loaded: bool)
    ensures
        ({
            let t = transport_up(s, token_loaded);
            &&& t.websocket_connected
            &&& t.last_error is None
            &&& (t.state == ClientState::Running) == (s.state == ClientState::Offline && token_loaded)
            &&& (t.state == ClientState::Submitted) == (s.state == ClientState::Submitted)
            &&& t.state != ClientState::Running && t.state != ClientState::Submitted ==> t.state
                == ClientState::Connected
            &&& t == (ClientSnapshot { websocket_connected: true, state: t.state, last_error: None, ..s })
        }),
{
}

/// Losing the connection never ends an attempt under way: a starting,
/// running or submitting attempt is offline afterwards, and runs again when
/// the connection comes back with the token loaded; a submitted attempt
/// stays submitted; any other state is disconnected.
pub proof fn lemma_connection_loss_keeps_attempt(s: ClientSnapshot)
    ensures
        s.state == ClientState::Starting || s.state == ClientState::Running || s.state == ClientState::Submitting
            ==> state_after_loss(s.state) == ClientState::Offline && transport_up(
            ClientSnapshot { state: state_after_loss(s.state), websocket_connected: false, ..s },
            true,
        ).state == ClientState::Running,
        s.state == ClientState::Submitted ==> state_after_loss(s.state) == ClientState::Submitted,
        s.state != ClientState::Starting && s.state != ClientState::Running && s.state != ClientState::Submitting
            && s.state != ClientState::Submitted ==> state_after_loss(s.state) == ClientState::Disconnected,
{
}

/// A user disconnect never ends an active attempt: a running or offline
/// attempt is offline afterwards, so answers can still be saved, and it runs
/// again when the connection comes back with the token loaded. A submitted
/// attempt stays submitted; any other state is disconnected. Only the state
/// and the connection flag change.
pub proof fn lemma_user_disconnect_keeps_attempt(s: ClientSnapshot)
    ensures
        ({
            let d = user_disconnected(s);
            &&& !d.websocket_connected
            &&& s.state == ClientState::Running || s.state == ClientState::Offline ==> d.state
                == ClientState::Offline && transport_up(d, true).state == ClientState::Running
            &&& s.state == ClientState::Submitted ==> d.state == ClientState::Submitted
            &&& s.state != ClientState::Running && s.state != ClientState::Offline && s.state
                != ClientState::Submitted ==> d.state == ClientState::Disconnected
            &&& d == (ClientSnapshot { websocket_connected: false, state: d.state, ..s })
        }),
{
}

/// The first loaded answer to a question is the first one in the list with
/// that question.
proof fn lemma_first_answer_at(answers: Seq<LocalAnswerView>, q: Seq<char>, i: int)
    requires
        0 <= i < answers.len(),
        answers[i].question_id == q,
        forall|j: int| 0 <= j < i ==> answers[j].question_id != q,
    ensures
        first_answer(answers, q) == Some(answers[i]),
    decreases i,
{
    if i > 0 {
        lemma_first_answer_at(answers.drop_first(), q, i - 1);
    }
}

/// Without a loaded answer to a question there is no first one.
proof fn lemma_first_answer_none(answers: Seq<LocalAnswerView>, q: Seq<char>)
    requires
        forall|j: int| 0 <= j < answers.len() ==> answers[j].question_id != q,
    ensures
        first_answer(answers, q) is None,
    decreases answers.len(),
{
    if answers.len() > 0 {
        lemma_first_answer_none(answers.drop_first(), q);
    }
}

/// Saving an answer to a question whose loaded answer has a server revision
/// keeps that revision in the row written; only the revision, the answer,
/// the synchronisation state (pending) and the error (none) come from the
/// save.
pub proof fn lemma_save_keeps_server_revision(
    v: StoreView,
    compilation_id: Seq<char>,
    answers: Seq<LocalAnswerView>,
    input: SaveAnswerInput,
    request_id: Seq<char>,
    i: int,
)
    requires
        0 <= i < answers.len(),
        answers[i].question_id == input.question_id@,
        forall|j: int| 0 <= j < i ==> answers[j].question_id != input.question_id@,
    ensures
        ({
            let a = saved_answer(input, first_answer(answers, input.question_id@));
            &&& a == (LocalAnswerView {
                client_revision: input.client_revision,
                answer: input.answer@,
                sync_state: AnswerSyncState::Pending,
                last_error: None,
                ..answers[i]
            })
            &&& queued(v, compilation_id, a, request_id) matches Ok(w) ==> w.answers[(
                compilation_id,
                input.question_id@,
            )].server_revision == answers[i].server_revision
        }),
{
    lemma_first_answer_at(answers, input.question_id@, i);
    let a = saved_answer(input, first_answer(answers, input.question_id@));
    if queued(v, compilation_id, a, request_id) is Ok {
        lemma_queue_writes_answer_and_entry(v, compilation_id, a, request_id);
    }
}

/// Saving an answer to a question with no loaded answer writes a row without
/// a server revision.
pub proof fn lemma_save_new_question_has_no_server_revision(
    answers: Seq<LocalAnswerView>,
    input: SaveAnswerInput,
)
    requires
        forall|j: int| 0 <= j < answers.len() ==> answers[j].question_id != input.question_id@,
    ensures
        saved_answer(input, first_answer(answers, input.question_id@)) == (LocalAnswerView {
            question_id: input.question_id@,
            client_revision: input.client_revision,
            server_revision: None,
            answer: input.answer@,
            sync_state: AnswerSyncState::Pending,
            last_error: None,
        }),
{
    lemma_first_answer_none(answers, input.question_id@);
}

/// A confirmed submit records the server's reply: the attempt is submitted
/// and disconnected, with the receipt and the submission time of the reply
/// and no error; everything else of the snapshot is kept.
pub proof fn lemma_submit_records_reply(s: ClientSnapshot, d: SubmitData)
    ensures
        ({
            let t = submitted_snapshot(s, d);
            &&& t.state == ClientState::Submitted
            &&& !t.websocket_connected
            &&& t.receipt == Some(d.receipt)
            &&& t.submitted_at == Some(d.submitted_at)
            &&& t.last_error is None
            &&& t == (ClientSnapshot {
                state: ClientState::Submitted,
                websocket_connected: false,
                receipt: t.receipt,
                submitted_at: t.submitted_at,
                last_error: None,
                ..s
            })
        }),
{
}

/// The pause before a reconnection attempt doubles from one second up to
/// eight, is fifteen seconds before the fifth attempt, and thirty from the
/// sixth on.
pub proof fn lemma_backoff_schedule(a: u32)
    requires
        1 <= a,
    ensures
        a < 4 ==> backoff_seconds((a + 1) as u32) == 2 * backoff_seconds(a),
        backoff_seconds(1) == 1,
        a == 5 ==> backoff_seconds(a) == 15,
        a >= 6 ==> backoff_seconds(a) == 30,
{
}

/// Dropping the leading white space removes only white space, and stops at
/// a character that is not white space.
proof fn lemma_trim_start_drops_white(s: Seq<char>)
    ensures
        ({
            let i = s.len() - trim_start(s).len();
            &&& 0 <= i <= s.len()
            &&& trim_start(s) == s.subrange(i, s.len() as int)
            &&& forall|k: int| 0 <= k < i ==> white_space(#[trigger] s[k])
            &&& trim_start(s).len() > 0 ==> !white_space(trim_start(s)[0])
        }),
    decreases s.len(),
{
    if s.len() > 0 && white_space(s[0]) {
        lemma_trim_start_drops_white(s.drop_first());
        let t = s.drop_first();
        let i = t.len() - trim_start(t).len();
        assert(t.subrange(i, t.len() as int) =~= s.subrange(i + 1, s.len() as int));
        assert forall|k: int| 0 <= k < i + 1 implies white_space(#[trigger] s[k]) by {
            if k > 0 {
                assert(s[k] == t[k - 1]);
            }
        }
    } else {
        assert(s.subrange(0, s.len() as int) =~= s);
    }
}

/// Dropping the trailing white space removes only white space, and stops at
/// a character that is not white space.
proof fn lemma_trim_end_drops_white(s: Seq<char>)
    ensures
        ({
            let j = trim_end(s).len();
            &&& 0 <= j <= s.len()
            &&& trim_end(s) == s.subrange(0, j as int)
            &&& forall|k: int| j <= k < s.len() ==> white_space(#[trigger] s[k])
            &&& j > 0 ==> !white_space(trim_end(s).last())
        }),
    decreases s.len(),
{
    if s.len() > 0 && white_space(s.last()) {
        lemma_trim_end_drops_white(s.drop_last());
        let t = s.drop_last();
        let j = trim_end(t).len();
        assert(t.subrange(0, j as int) =~= s.subrange(0, j as int));
        assert forall|k: int| j <= k < s.len() implies white_space(#[trigger] s[k]) by {
            if k < s.len() - 1 {
                assert(s[k] == t[k]);
            }
        }
    } else {
        assert(s.subrange(0, s.len() as int) =~= s);
    }
}

/// A text without its leading and trailing white space is the part of the
/// text between white space only: nothing but white space is cut off before
/// or after it, and it neither starts nor ends with white space.
pub proof fn lemma_trimmed_cuts_only_white_space(s: Seq<char>)
    ensures
        exists|i: int, j: int|
            {
                &&& 0 <= i <= j <= s.len()
                &&& trimmed(s) == s.subrange(i, j)
                &&& forall|k: int| 0 <= k < i ==> white_space(#[trigger] s[k])
                &&& forall|k: int| j <= k < s.len() ==> white_space(#[trigger] s[k])
            },
        trimmed(s).len() > 0 ==> !white_space(trimmed(s)[0]) && !white_space(trimmed(s).last()),
{
    lemma_trim_start_drops_white(s);
    let u = trim_start(s);
    let i = s.len() - u.len();
    lemma_trim_end_drops_white(u);
    let j = trim_end(u).len();
    assert(trimmed(s) =~= s.subrange(i, i + j));
    assert forall|k: int| i + j <= k < s.len() implies white_space(#[trigger] s[k]) by {
        assert(s[k] == u[k - i]);
    }
    if trimmed(s).len() > 0 {
        assert(trimmed(s)[0] == u[0]);
    }
}

/// A token entered by the user (or read from the token file) is kept without
/// surrounding white space, and a blank one is no token at all.
pub proof fn lemma_entered_token_trimmed(token: Seq<char>)
    ensures
        entered_token(token) is None <==> trimmed(token).len() == 0,
        entered_token(token) matches Some(t) ==> t == trimmed(token) && t.len() > 0,
{
}

/// A setting from the environment is taken exactly as given unless it is
/// blank, in which case there is none.
pub proof fn lemma_nonblank_setting_kept(value: Option<String>)
    ensures
        nonblank_setting(value) matches Some(v) ==> value == Some(v) && trimmed(v@).len() > 0,
        nonblank_setting(value) is None ==> value is None || trimmed(value->0@).len() == 0,
{
}

/// Configuring the client sets up a new attempt: disconnected, at revision
/// zero, with nothing from the server (no expiry, receipt, submission time,
/// monitors or error), on the configured endpoint and identifiers, which are
/// the ones entered without surrounding white space.
pub proof fn lemma_configuration_starts_over(input: ConfigureClientInput, config: ClientConfig)
    requires
        configuration_of(input, config),
    ensures
        ({
            let s = fresh_snapshot(config);
            &&& s.state == ClientState::Disconnected
            &&& !s.websocket_connected
            &&& s.server_revision == 0
            &&& s.expires_at is None && s.receipt is None && s.submitted_at is None
            &&& s.monitor_count is None && s.last_error is None
            &&& s.server_url@ == trimmed(input.server_url@)
            &&& s.installation_id@ == trimmed(input.installation_id@)
            &&& s.session_id@ == trimmed(input.session_id@)
            &&& s.compilation_id@ == trimmed(input.compilation_id@)
        }),
{
}

/// A restart drops the connection without ending the attempt: an attempt
/// that was connected, starting, running or submitting is offline, and runs
/// again when the connection comes back with the token loaded; any other
/// state, and everything else of the snapshot, is kept.
pub proof fn lemma_restart_keeps_attempt(s: ClientSnapshot)
    ensures
        ({
            let r = restarted(s);
            &&& !r.websocket_connected
            &&& s.state == ClientState::Connected || s.state == ClientState::Starting || s.state
                == ClientState::Running || s.state == ClientState::Submitting ==> r.state == ClientState::Offline
                && transport_up(r, true).state == ClientState::Running
            &&& s.state != ClientState::Connected && s.state != ClientState::Starting && s.state
                != ClientState::Running && s.state != ClientState::Submitting ==> r.state == s.state
            &&& r == (ClientSnapshot { websocket_connected: false, state: r.state, ..s })
        }),
{
}

/// An attempt that the server started runs with the server's compilation,
/// revision and expiry, nothing submitted and no error, on the same endpoint
/// and identifiers of installation and session.
pub proof fn lemma_started_attempt_runs(s: ClientSnapshot, started: AttemptStarted)
    ensures
        running(
            running_snapshot(s, started),
            started.compilation_id@,
            started.server_revision,
            started.expires_at@,
        ),
        running_snapshot(s, started).server_url == s.server_url,
        running_snapshot(s, started).installation_id == s.installation_id,
        running_snapshot(s, started).session_id == s.session_id,
        running_snapshot(s, started).websocket_connected == s.websocket_connected,
{
}

/// An acknowledgement never lowers the revision the client has seen: it
/// becomes the higher of the one seen and the one acknowledged, and the
/// error shown is cleared; the rest of the snapshot is kept.
pub proof fn lemma_ack_revision_is_highest(s: ClientSnapshot, server_revision: u64)
    ensures
        ({
            let t = after_ack(s, server_revision);
            &&& t.server_revision >= s.server_revision
            &&& t.server_revision >= server_revision
            &&& t.server_revision == s.server_revision || t.server_revision == server_revision
            &&& t.last_error is None
            &&& t == (ClientSnapshot { server_revision: t.server_revision, last_error: None, ..s })
        }),
{
}

/// Once an attempt has expired it stays expired as time goes on, and a
/// submitted attempt never expires.
pub proof fn lemma_expiry_is_lasting(s: ClientSnapshot, now: (i64, u32), later: (i64, u32))
    requires
        attempt_expired(s, now),
        not_after(now, later),
    ensures
        attempt_expired(s, later),
        s.state != ClientState::Submitted,
        s.expires_at is Some,
{
}

// ---------------------------------------------------------------------------
// Protocol and transport
// ---------------------------------------------------------------------------

/// A response is accepted only as the version 1.0 response to the very
/// request and command that were sent, and only when the server reports
/// success.
pub proof fn lemma_decoded_matches_request<T>(response: CommandResponse<T>, request_id: Seq<char>, cmd: Seq<char>)
    requires
        decoded(response, request_id, cmd) is Ok,
    ensures
        response.version@ == "1.0"@,
        response.message_type@ == "response"@,
        response.request_id@ == request_id,
        response.cmd@ == cmd,
        response.ok,
        response.data is Some,
{
}

/// The pause before a reconnection attempt never shrinks from one attempt to
/// the next, and never exceeds thirty seconds.
pub proof fn lemma_backoff_grows_to_cap(a: u32, b: u32)
    requires
        1 <= a <= b,
    ensures
        backoff_seconds(a) <= backoff_seconds(b),
        1 <= backoff_seconds(b) <= 30,
{
}

} // verus!
