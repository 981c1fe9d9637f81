//! The delivery worker's steps over the queue: claim one task under a
//! row-level lock that skips rows claimed by concurrent workers, resolve the
//! issue content, validate the recipient, and — after the caller has
//! attempted the send — delete the task in the same transaction that claimed
//! it.
//!
//! The send itself is the email transport's, outside this library: the
//! caller's loop performs it between [`begin_delivery`] and [`delete_task`].
//! A worker that crashes in between instead rolls its transaction back,
//! which [`release_task`] models, and the task becomes claimable again.

use vstd::prelude::*;

use crate::domain::email_accepted;
use crate::domain::SubscriberEmail;
use crate::store::has_issue;
use crate::store::has_task;
use crate::store::is_task_for;
use crate::store::issue_of;
use crate::store::store_wf;
use crate::store::task_index_of;
use crate::store::DeliveryTask;
use crate::store::NewsletterIssue;
use crate::store::Store;
use crate::store::TaskV;

verus! {

/// What one worker iteration reports.
#[derive(Debug, PartialEq)]
pub enum ExecutionOutput {
    TaskCompleted,
    EmptyQueue,
}

/// The store after some unclaimed task at position `i` has been claimed.
pub open spec fn claimed_at(ts: Seq<TaskV>, i: int) -> Seq<TaskV> {
    ts.update(i, TaskV { claimed: true, ..ts[i] })
}

/// Claims one task: selects an unclaimed row, skipping rows locked by
/// concurrent workers, and locks it. Returns the claimed task's issue and
/// recipient, or nothing if every row is claimed or the queue is empty.
pub fn dequeue_task(store: &mut Store) -> (r: Option<(u128, String)>)
    requires
        store_wf(old(store)@),
    ensures
        store_wf(final(store)@),
        final(store)@.records == old(store)@.records,
        final(store)@.issues == old(store)@.issues,
        match r {
            None => final(store)@ == old(store)@ && (forall|j: int|
                0 <= j < old(store)@.tasks.len() ==> (#[trigger] old(store)@.tasks[j]).claimed),
            Some((issue_id, recipient)) => {
                &&& exists|i: int|
                    {
                        &&& 0 <= i < old(store)@.tasks.len()
                        &&& #[trigger] old(store)@.tasks[i] == TaskV {
                            issue_id,
                            recipient: recipient@,
                            claimed: false,
                        }
                        &&& final(store)@.tasks == claimed_at(old(store)@.tasks, i)
                    }
                &&& has_issue(old(store)@.issues, issue_id)
            },
        },
{
    match store.find_unclaimed_task_index() {
        None => None,
        Some(i) => {
            let ghost s0 = store@;
            let issue_id = store.tasks[i].issue_id;
            let recipient = store.tasks[i].recipient_address.clone();
            let claimed = DeliveryTask { issue_id, recipient_address: recipient.clone(), claimed: true };
            proof {
                assert(claimed@ =~= TaskV { claimed: true, ..s0.tasks[i as int] });
            }
            store.tasks.set(i, claimed);
            proof {
                assert(store@.tasks =~= claimed_at(s0.tasks, i as int));
                assert(store@.records =~= s0.records);
                assert(store@.issues =~= s0.issues);
                assert(s0.tasks[i as int] == TaskV {
                    issue_id,
                    recipient: recipient@,
                    claimed: false,
                });
                let ts = store@.tasks;
                assert forall|a: int, b: int| 0 <= a < b < ts.len() implies !is_task_for(
                    ts[a],
                    ts[b].issue_id,
                    ts[b].recipient,
                ) by {
                    assert(ts[a].issue_id == s0.tasks[a].issue_id && ts[a].recipient
                        == s0.tasks[a].recipient);
                    assert(ts[b].issue_id == s0.tasks[b].issue_id && ts[b].recipient
                        == s0.tasks[b].recipient);
                    assert(!is_task_for(s0.tasks[a], s0.tasks[b].issue_id, s0.tasks[b].recipient));
                }
                assert forall|a: int| 0 <= a < ts.len() implies has_issue(
                    store@.issues,
                    (#[trigger] ts[a]).issue_id,
                ) by {
                    assert(has_issue(s0.issues, s0.tasks[a].issue_id));
                }
                assert(has_issue(s0.issues, s0.tasks[i as int].issue_id));
            }
            Some((issue_id, recipient))
        },
    }
}

/// Resolves the content of issue `newsletter_issue_id`. Issues are
/// immutable, so the read needs no lock.
pub fn get_issue(store: &Store, newsletter_issue_id: u128) -> (r: Option<&NewsletterIssue>)
    requires
        store_wf(store@),
    ensures
        match r {
            Some(issue) => has_issue(store@.issues, newsletter_issue_id) && issue@ == issue_of(
                store@.issues,
                newsletter_issue_id,
            ),
            None => !has_issue(store@.issues, newsletter_issue_id),
        },
{
    match store.find_issue_index(newsletter_issue_id) {
        None => None,
        Some(i) => Some(&store.issues[i]),
    }
}

/// Acknowledges the claimed task of `(newsletter_issue_id, email)`: deletes
/// the row and commits the transaction that claimed it. Deleting a pair
/// that is not queued changes nothing.
pub fn delete_task(store: &mut Store, newsletter_issue_id: u128, email: &String) -> (r: ())
    requires
        store_wf(old(store)@),
    ensures
        store_wf(final(store)@),
        final(store)@.records == old(store)@.records,
        final(store)@.issues == old(store)@.issues,
        has_task(old(store)@.tasks, newsletter_issue_id, email@) ==> final(store)@.tasks == old(
            store,
        )@.tasks.remove(task_index_of(old(store)@.tasks, newsletter_issue_id, email@)),
        !has_task(old(store)@.tasks, newsletter_issue_id, email@) ==> final(store)@ == old(store)@,
{
    match store.find_task_index(newsletter_issue_id, email) {
        None => (),
        Some(i) => {
            let ghost s0 = store@;
            let _ = store.tasks.remove(i);
            proof {
                assert(store@.tasks =~= s0.tasks.remove(i as int));
                assert(store@.records =~= s0.records);
                assert(store@.issues =~= s0.issues);
                let ts = store@.tasks;
                assert forall|a: int, b: int| 0 <= a < b < ts.len() implies !is_task_for(
                    ts[a],
                    ts[b].issue_id,
                    ts[b].recipient,
                ) by {
                    let a0: int = if a < i as int {
                        a
                    } else {
                        a + 1
                    };
                    let b0: int = if b < i as int {
                        b
                    } else {
                        b + 1
                    };
                    assert(ts[a] == s0.tasks[a0] && ts[b] == s0.tasks[b0]);
                    assert(!is_task_for(s0.tasks[a0], s0.tasks[b0].issue_id, s0.tasks[b0].recipient));
                }
                assert forall|a: int| 0 <= a < ts.len() implies has_issue(
                    store@.issues,
                    (#[trigger] ts[a]).issue_id,
                ) by {
                    let a0: int = if a < i as int {
                        a
                    } else {
                        a + 1
                    };
                    assert(ts[a] == s0.tasks[a0]);
                    assert(has_issue(s0.issues, s0.tasks[a0].issue_id));
                }
            }
        },
    }
}

/// Rolls the claiming transaction back: the claim of
/// `(newsletter_issue_id, email)` is released and the task becomes visible
/// to other workers again. This is what a worker crash between claim and
/// acknowledgement amounts to. Releasing a pair that is not queued changes
/// nothing.
pub fn release_task(store: &mut Store, newsletter_issue_id: u128, email: &String) -> (r: ())
    requires
        store_wf(old(store)@),
    ensures
        store_wf(final(store)@),
        final(store)@.records == old(store)@.records,
        final(store)@.issues == old(store)@.issues,
        has_task(old(store)@.tasks, newsletter_issue_id, email@) ==> final(store)@.tasks == old(
            store,
        )@.tasks.update(
            task_index_of(old(store)@.tasks, newsletter_issue_id, email@),
            TaskV { issue_id: newsletter_issue_id, recipient: email@, claimed: false },
        ),
        !has_task(old(store)@.tasks, newsletter_issue_id, email@) ==> final(store)@ == old(store)@,
{
    match store.find_task_index(newsletter_issue_id, email) {
        None => (),
        Some(i) => {
            let ghost s0 = store@;
            let released = DeliveryTask {
                issue_id: newsletter_issue_id,
                recipient_address: email.clone(),
                claimed: false,
            };
            store.tasks.set(i, released);
            proof {
                assert(store@.tasks =~= s0.tasks.update(
                    i as int,
                    TaskV { issue_id: newsletter_issue_id, recipient: email@, claimed: false },
                ));
                assert(store@.records =~= s0.records);
                assert(store@.issues =~= s0.issues);
                let ts = store@.tasks;
                assert forall|a: int, b: int| 0 <= a < b < ts.len() implies !is_task_for(
                    ts[a],
                    ts[b].issue_id,
                    ts[b].recipient,
                ) by {
                    assert(ts[a].issue_id == s0.tasks[a].issue_id && ts[a].recipient
                        == s0.tasks[a].recipient);
                    assert(ts[b].issue_id == s0.tasks[b].issue_id && ts[b].recipient
                        == s0.tasks[b].recipient);
                    assert(!is_task_for(s0.tasks[a], s0.tasks[b].issue_id, s0.tasks[b].recipient));
                }
                assert forall|a: int| 0 <= a < ts.len() implies has_issue(
                    store@.issues,
                    (#[trigger] ts[a]).issue_id,
                ) by {
                    assert(has_issue(s0.issues, s0.tasks[a].issue_id));
                }
            }
        },
    }
}

/// What a worker's iteration found: nothing to do, a task whose stored
/// recipient is invalid, or a task to send. In the latter two cases the
/// task is claimed; the caller finishes it with [`delete_task`] — for the
/// invalid recipient and the failed send alike, since delivery is attempted
/// at most once per task and one recipient's failure must not block others.
#[derive(Debug)]
#[allow(inconsistent_fields)]
pub enum DeliveryStep {
    /// No unclaimed task: sleep and poll again.
    EmptyQueue,
    /// The claimed task's stored address is invalid: a permanent failure,
    /// logged and acknowledged without sending.
    InvalidRecipient { issue_id: u128, recipient: String },
    /// Send the issue's content to the validated recipient, then
    /// acknowledge.
    Send {
        issue_id: u128,
        recipient: SubscriberEmail,
        title: String,
        text: String,
        html: String,
    },
}

/// Begins one worker iteration: claims a task, resolves its issue's content
/// and validates its recipient. Claimed tasks' issues always resolve: every
/// queued task references a published issue.
pub fn begin_delivery(store: &mut Store) -> (r: DeliveryStep)
    requires
        store_wf(old(store)@),
    ensures
        store_wf(final(store)@),
        final(store)@.records == old(store)@.records,
        final(store)@.issues == old(store)@.issues,
        match r {
            DeliveryStep::EmptyQueue => final(store)@ == old(store)@ && (forall|j: int|
                0 <= j < old(store)@.tasks.len() ==> (#[trigger] old(store)@.tasks[j]).claimed),
            DeliveryStep::InvalidRecipient { issue_id, recipient } => {
                &&& exists|i: int|
                    {
                        &&& 0 <= i < old(store)@.tasks.len()
                        &&& #[trigger] old(store)@.tasks[i] == TaskV {
                            issue_id,
                            recipient: recipient@,
                            claimed: false,
                        }
                        &&& final(store)@.tasks == claimed_at(old(store)@.tasks, i)
                    }
                &&& !email_accepted(recipient@)
            },
            DeliveryStep::Send { issue_id, recipient, title, text, html } => {
                &&& exists|i: int|
                    {
                        &&& 0 <= i < old(store)@.tasks.len()
                        &&& #[trigger] old(store)@.tasks[i] == TaskV {
                            issue_id,
                            recipient: recipient@,
                            claimed: false,
                        }
                        &&& final(store)@.tasks == claimed_at(old(store)@.tasks, i)
                    }
                &&& email_accepted(recipient@)
                &&& issue_of(old(store)@.issues, issue_id).title == title@
                &&& issue_of(old(store)@.issues, issue_id).text == text@
                &&& issue_of(old(store)@.issues, issue_id).html == html@
            },
        },
{
    let claimed = dequeue_task(store);
    match claimed {
        None => DeliveryStep::EmptyQueue,
        Some((issue_id, recipient)) => {
            let (title, text, html) = match get_issue(store, issue_id) {
                Some(issue) => (issue.title.clone(), issue.text.clone(), issue.html.clone()),
                None => {
                    proof {
                        assert(has_issue(store@.issues, issue_id));
                    }
                    unreached()
                },
            };
            match SubscriberEmail::parse(recipient.clone()) {
                Ok(email) => DeliveryStep::Send { issue_id, recipient: email, title, text, html },
                Err(_) => DeliveryStep::InvalidRecipient { issue_id, recipient },
            }
        },
    }
}

/// How many seconds the worker loop pauses after an iteration: ten on an
/// empty queue, none after a completed task, one after a failed iteration
/// (`None`).
pub fn worker_pause_secs(outcome: Option<&ExecutionOutput>) -> (r: u64)
    ensures
        match outcome {
            Some(ExecutionOutput::EmptyQueue) => r == 10,
            Some(ExecutionOutput::TaskCompleted) => r == 0,
            None => r == 1,
        },
{
    match outcome {
        Some(ExecutionOutput::EmptyQueue) => 10,
        Some(ExecutionOutput::TaskCompleted) => 0,
        None => 1,
    }
}

} // verus!
