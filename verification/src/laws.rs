//! What the pipeline guarantees, proved once and for all over the ghost
//! transitions: idempotent publishing, exact fan-out, mutual exclusion of
//! concurrent attempts on one key, at-least-once task consumption, retention
//! boundaries, and per-recipient failure isolation.

use vstd::prelude::*;

use crate::delivery::claimed_at;
use crate::idempotency_key::valid_key;
use crate::publish::completed_record;
use crate::publish::confirmed_count;
use crate::publish::delivery_tasks_for;
use crate::publish::publish_success_response_v;
use crate::publish::publish_transition;
use crate::publish::PublishOutcome;
use crate::publish::SubscriberRowV;
use crate::retention::retained_records;
use crate::retention::RETENTION_SECONDS;
use crate::store::has_issue;
use crate::store::has_record;
use crate::store::has_task;
use crate::store::is_record_for;
use crate::store::is_task_for;
use crate::store::record_index_of;
use crate::store::record_of;
use crate::store::store_wf;
use crate::store::task_index_of;
use crate::store::tasks_unique;
use crate::store::RecordV;
use crate::store::StoreV;
use crate::store::TaskV;

verus! {

/// Mutual exclusion under contention: of two publish requests with the same
/// `(user_id, key)` — whatever their bodies, stamps and generated issue
/// identities — exactly the one that claims the key first performs the real
/// work; the other changes nothing and returns the very response the first
/// one saved.
pub proof fn lemma_publish_mutual_exclusion(
    s: StoreV,
    user_id: u128,
    key: Seq<char>,
    title1: Seq<char>,
    text1: Seq<char>,
    html1: Seq<char>,
    subs1: Seq<SubscriberRowV>,
    now1: i64,
    id1: u128,
    title2: Seq<char>,
    text2: Seq<char>,
    html2: Seq<char>,
    subs2: Seq<SubscriberRowV>,
    now2: i64,
    id2: u128,
)
    requires
        store_wf(s),
        valid_key(key),
        !has_record(s.records, user_id, key),
        !has_issue(s.issues, id1),
    ensures
        ({
            let (s1, o1) = publish_transition(
                s,
                user_id,
                key,
                title1,
                text1,
                html1,
                subs1,
                now1,
                id1,
            );
            let (s2, o2) = publish_transition(
                s1,
                user_id,
                key,
                title2,
                text2,
                html2,
                subs2,
                now2,
                id2,
            );
            &&& o1 == PublishOutcome::Accepted(publish_success_response_v())
            &&& o2 == PublishOutcome::Replayed(publish_success_response_v())
            &&& s2 == s1
            &&& s1.issues.len() == s.issues.len() + 1
            &&& s1.tasks == s.tasks + delivery_tasks_for(subs1, id1)
        }),
{
    let (s1, o1) = publish_transition(s, user_id, key, title1, text1, html1, subs1, now1, id1);
    let n = s.records.len() as int;
    let completed = completed_record(user_id, key, now1);
    assert(s1.records == s.records.push(completed));
    assert(is_record_for(s1.records[n], user_id, key));
    assert(has_record(s1.records, user_id, key));
    let idx = record_index_of(s1.records, user_id, key);
    assert(0 <= idx < s1.records.len() && is_record_for(s1.records[idx], user_id, key));
    assert(idx == n) by {
        if idx < n {
            assert(s1.records[idx] == s.records[idx]);
            assert(has_record(s.records, user_id, key));
        }
    }
    assert(record_of(s1.records, user_id, key) == completed);
}

/// Idempotency: issuing the same publish request twice yields byte-identical
/// responses on both calls, and exactly one issue and one set of delivery
/// tasks is created, however the server stamps and numbers each attempt.
pub proof fn lemma_publish_is_idempotent(
    s: StoreV,
    user_id: u128,
    key: Seq<char>,
    title: Seq<char>,
    text: Seq<char>,
    html: Seq<char>,
    subs: Seq<SubscriberRowV>,
    now1: i64,
    id1: u128,
    now2: i64,
    id2: u128,
)
    requires
        store_wf(s),
        valid_key(key),
        !has_record(s.records, user_id, key),
        !has_issue(s.issues, id1),
    ensures
        ({
            let (s1, o1) = publish_transition(s, user_id, key, title, text, html, subs, now1, id1);
            let (s2, o2) = publish_transition(
                s1,
                user_id,
                key,
                title,
                text,
                html,
                subs,
                now2,
                id2,
            );
            &&& o1 == PublishOutcome::Accepted(publish_success_response_v())
            &&& o2 == PublishOutcome::Replayed(publish_success_response_v())
            &&& s2 == s1
            &&& s1.issues.len() == s.issues.len() + 1
            &&& s1.tasks == s.tasks + delivery_tasks_for(subs, id1)
        }),
{
    lemma_publish_mutual_exclusion(
        s,
        user_id,
        key,
        title,
        text,
        html,
        subs,
        now1,
        id1,
        title,
        text,
        html,
        subs,
        now2,
        id2,
    );
}

/// Fan-out correctness: a successful publish to a directory listing with N
/// confirmed and M unconfirmed subscribers enqueues exactly N delivery
/// tasks — one per confirmed subscriber, never N + M.
pub proof fn lemma_fanout_exact(
    s: StoreV,
    user_id: u128,
    key: Seq<char>,
    title: Seq<char>,
    text: Seq<char>,
    html: Seq<char>,
    subs: Seq<SubscriberRowV>,
    now: i64,
    issue_id: u128,
)
    requires
        store_wf(s),
        valid_key(key),
        !has_record(s.records, user_id, key),
        !has_issue(s.issues, issue_id),
    ensures
        ({
            let (s1, o1) = publish_transition(
                s,
                user_id,
                key,
                title,
                text,
                html,
                subs,
                now,
                issue_id,
            );
            &&& s1.tasks.len() == s.tasks.len() + confirmed_count(subs)
            &&& forall|i: int|
                s.tasks.len() <= i < s1.tasks.len() ==> ((#[trigger] s1.tasks[i]).issue_id
                    == issue_id && !s1.tasks[i].claimed && exists|j: int|
                    0 <= j < subs.len() && (#[trigger] subs[j]).confirmed && subs[j].email
                        == s1.tasks[i].recipient)
        }),
{
    crate::publish::lemma_delivery_tasks_for(subs, issue_id);
    let (s1, o1) = publish_transition(s, user_id, key, title, text, html, subs, now, issue_id);
    let fresh = delivery_tasks_for(subs, issue_id);
    assert(s1.tasks == s.tasks + fresh);
    assert forall|i: int| s.tasks.len() <= i < s1.tasks.len() implies ((
    #[trigger] s1.tasks[i]).issue_id == issue_id && !s1.tasks[i].claimed && exists|j: int|
        0 <= j < subs.len() && (#[trigger] subs[j]).confirmed && subs[j].email
            == s1.tasks[i].recipient) by {
        let n = s.tasks.len() as int;
        assert(s1.tasks[i] == fresh[i - n]);
        assert(fresh.contains(fresh[i - n]));
    }
}

/// At-least-once task consumption: a worker that claims a task and then
/// crashes before acknowledging it rolls its transaction back, and the
/// queue is exactly as it was — the task is present, unclaimed, and
/// claimable by another worker. No task is lost.
pub proof fn lemma_claim_release_restores(ts: Seq<TaskV>, i: int)
    requires
        tasks_unique(ts),
        0 <= i < ts.len(),
        !ts[i].claimed,
    ensures
        ({
            let claimed = claimed_at(ts, i);
            &&& has_task(claimed, ts[i].issue_id, ts[i].recipient)
            &&& task_index_of(claimed, ts[i].issue_id, ts[i].recipient) == i
            &&& claimed.update(
                i,
                TaskV { issue_id: ts[i].issue_id, recipient: ts[i].recipient, claimed: false },
            ) == ts
        }),
{
    let claimed = claimed_at(ts, i);
    assert(is_task_for(claimed[i], ts[i].issue_id, ts[i].recipient));
    assert(has_task(claimed, ts[i].issue_id, ts[i].recipient));
    let idx = task_index_of(claimed, ts[i].issue_id, ts[i].recipient);
    assert(0 <= idx < claimed.len() && is_task_for(claimed[idx], ts[i].issue_id, ts[i].recipient));
    assert(idx == i) by {
        if idx != i {
            assert(claimed[idx] == ts[idx]);
            assert(is_task_for(ts[idx], ts[i].issue_id, ts[i].recipient));
            if idx < i {
                assert(!is_task_for(ts[idx], ts[i].issue_id, ts[i].recipient));
            } else {
                assert(!is_task_for(ts[i], ts[idx].issue_id, ts[idx].recipient));
            }
        }
    }
    assert(claimed.update(
        i,
        TaskV { issue_id: ts[i].issue_id, recipient: ts[i].recipient, claimed: false },
    ) =~= ts);
}

/// Retention correctness: one sweep at time `now` deletes a record created
/// at least the retention window before `now`, and keeps a younger one.
pub proof fn lemma_retention_boundary(rs: Seq<RecordV>, now: i64, i: int)
    requires
        0 <= i < rs.len(),
    ensures
        now - rs[i].created_at >= RETENTION_SECONDS ==> !retained_records(rs, now).contains(rs[i]),
        now - rs[i].created_at < RETENTION_SECONDS ==> retained_records(rs, now).contains(rs[i]),
{
    crate::retention::lemma_retained_records(rs, now);
}

/// Per-recipient failure isolation: acknowledging task A — and the
/// acknowledgement is the same whether A's send succeeded, failed, or was
/// skipped for an invalid address — removes exactly A. Any other task B is
/// still queued afterwards.
pub proof fn lemma_failure_isolation(
    ts: Seq<TaskV>,
    a_issue: u128,
    a_recipient: Seq<char>,
    b_issue: u128,
    b_recipient: Seq<char>,
)
    requires
        tasks_unique(ts),
        has_task(ts, a_issue, a_recipient),
        has_task(ts, b_issue, b_recipient),
        !(a_issue == b_issue && a_recipient == b_recipient),
    ensures
        ({
            let after = ts.remove(task_index_of(ts, a_issue, a_recipient));
            &&& has_task(after, b_issue, b_recipient)
            &&& !has_task(after, a_issue, a_recipient)
        }),
{
    let ia = task_index_of(ts, a_issue, a_recipient);
    assert(0 <= ia < ts.len() && is_task_for(ts[ia], a_issue, a_recipient));
    let ib = task_index_of(ts, b_issue, b_recipient);
    assert(0 <= ib < ts.len() && is_task_for(ts[ib], b_issue, b_recipient));
    let after = ts.remove(ia);
    assert(ia != ib);
    if ib < ia {
        assert(after[ib] == ts[ib]);
        assert(is_task_for(after[ib], b_issue, b_recipient));
    } else {
        assert(after[ib - 1] == ts[ib]);
        assert(is_task_for(after[ib - 1], b_issue, b_recipient));
    }
    assert(has_task(after, b_issue, b_recipient));
    assert forall|j: int| 0 <= j < after.len() implies !is_task_for(
        #[trigger] after[j],
        a_issue,
        a_recipient,
    ) by {
        let j0: int = if j < ia {
            j
        } else {
            j + 1
        };
        assert(after[j] == ts[j0]);
        if is_task_for(ts[j0], a_issue, a_recipient) {
            assert(ts[ia].issue_id == ts[j0].issue_id && ts[ia].recipient == ts[j0].recipient);
            if j0 < ia {
                assert(!is_task_for(ts[j0], ts[ia].issue_id, ts[ia].recipient));
            } else {
                assert(!is_task_for(ts[ia], ts[j0].issue_id, ts[j0].recipient));
            }
        }
    }
}

} // verus!

