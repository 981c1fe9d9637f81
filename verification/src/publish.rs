//! The issue publish operation: claim the idempotency key, persist the new
//! issue, fan delivery tasks out to every confirmed subscriber, save the
//! response — all as one atomic transaction — and return either that fresh
//! response or the replayed response of an earlier attempt with the same
//! key.

use vstd::prelude::*;

use crate::idempotency::in_flight_record;
use crate::idempotency::save_response;
use crate::idempotency::try_processing;
use crate::idempotency::IdempotencyError;
use crate::idempotency::NextAction;
use crate::idempotency_key::valid_key;
use crate::idempotency_key::IdempotencyKey;
use crate::response::see_other;
use crate::response::see_other_v;
use crate::response::HttpResponseDescriptor;
use crate::response::ResponseV;
use crate::store::has_issue;
use crate::store::has_record;
use crate::store::is_record_for;
use crate::store::is_task_for;
use crate::store::record_of;
use crate::store::store_wf;
use crate::store::tasks_unique;
use crate::store::DeliveryTask;
use crate::store::IdempotencyRecord;
use crate::store::IssueV;
use crate::store::NewsletterIssue;
use crate::store::RecordV;
use crate::store::Store;
use crate::store::StoreV;
use crate::store::TaskV;

verus! {

/// One row of the subscriber directory, as handed to the publish operation:
/// an address and whether it completed double opt-in confirmation.
pub struct SubscriberRow {
    pub email: String,
    pub confirmed: bool,
}

/// Ghost image of a subscriber row.
#[verifier::ext_equal]
pub struct SubscriberRowV {
    pub email: Seq<char>,
    pub confirmed: bool,
}

impl View for SubscriberRow {
    type V = SubscriberRowV;

    open spec fn view(&self) -> SubscriberRowV {
        SubscriberRowV { email: self.email@, confirmed: self.confirmed }
    }
}

/// Ghost images of a directory listing.
pub open spec fn views_of_subscribers(subs: Seq<SubscriberRow>) -> Seq<SubscriberRowV> {
    subs.map_values(|s: SubscriberRow| s@)
}

/// The directory returns a set of addresses: no address appears twice.
pub open spec fn distinct_emails(subs: Seq<SubscriberRowV>) -> bool {
    forall|i: int, j: int|
        0 <= i < j < subs.len() ==> (#[trigger] subs[i]).email != (#[trigger] subs[j]).email
}

/// The delivery tasks that a publish of `issue_id` fans out: one unclaimed
/// task per confirmed subscriber, in directory order.
pub open spec fn delivery_tasks_for(subs: Seq<SubscriberRowV>, issue_id: u128) -> Seq<TaskV>
    decreases subs.len(),
{
    if subs.len() == 0 {
        Seq::empty()
    } else {
        let init = delivery_tasks_for(subs.drop_last(), issue_id);
        if subs.last().confirmed {
            init.push(TaskV { issue_id, recipient: subs.last().email, claimed: false })
        } else {
            init
        }
    }
}

/// How many rows of the directory listing are confirmed.
pub open spec fn confirmed_count(subs: Seq<SubscriberRowV>) -> nat
    decreases subs.len(),
{
    if subs.len() == 0 {
        0
    } else {
        confirmed_count(subs.drop_last()) + if subs.last().confirmed {
            1nat
        } else {
            0nat
        }
    }
}

/// The fan-out makes one task per confirmed subscriber, every task carries
/// the published issue and starts unclaimed, and distinct addresses give
/// pairwise distinct tasks.
pub proof fn lemma_delivery_tasks_for(subs: Seq<SubscriberRowV>, issue_id: u128)
    ensures
        delivery_tasks_for(subs, issue_id).len() == confirmed_count(subs),
        forall|t: TaskV| #[trigger] delivery_tasks_for(subs, issue_id).contains(t) ==> {
            &&& t.issue_id == issue_id
            &&& t.claimed == false
            &&& exists|j: int|
                0 <= j < subs.len() && (#[trigger] subs[j]).confirmed && subs[j].email
                    == t.recipient
        },
        distinct_emails(subs) ==> tasks_unique(delivery_tasks_for(subs, issue_id)),
    decreases subs.len(),
{
    if subs.len() > 0 {
        let prefix = subs.drop_last();
        lemma_delivery_tasks_for(prefix, issue_id);
        let ts = delivery_tasks_for(subs, issue_id);
        let ti = delivery_tasks_for(prefix, issue_id);
        assert(forall|j: int| 0 <= j < prefix.len() ==> prefix[j] == subs[j]);
        if subs.last().confirmed {
            let tl = TaskV { issue_id, recipient: subs.last().email, claimed: false };
            assert(ts == ti.push(tl));
            assert forall|t: TaskV| #[trigger] ts.contains(t) implies {
                &&& t.issue_id == issue_id
                &&& t.claimed == false
                &&& exists|j: int|
                    0 <= j < subs.len() && (#[trigger] subs[j]).confirmed && subs[j].email
                        == t.recipient
            } by {
                let w = choose|w: int| 0 <= w < ts.len() && ts[w] == t;
                if w < ti.len() {
                    assert(ti.contains(t));
                } else {
                    assert(t == tl);
                    assert(0 <= subs.len() - 1 < subs.len() && subs[subs.len() - 1].confirmed
                        && subs[subs.len() - 1].email == t.recipient);
                }
            }
            if distinct_emails(subs) {
                assert(distinct_emails(prefix));
                assert forall|a: int, b: int| 0 <= a < b < ts.len() implies !is_task_for(
                    ts[a],
                    ts[b].issue_id,
                    ts[b].recipient,
                ) by {
                    if b < ti.len() {
                        assert(!is_task_for(ti[a], ti[b].issue_id, ti[b].recipient));
                    } else {
                        assert(ts[b] == tl);
                        assert(ti.contains(ti[a]));
                        let j = choose|j: int|
                            0 <= j < prefix.len() && (#[trigger] prefix[j]).confirmed
                                && prefix[j].email == ti[a].recipient;
                        assert(subs[j].email != subs[subs.len() - 1].email);
                    }
                }
            }
        } else {
            assert(ts == ti);
            if distinct_emails(subs) {
                assert(distinct_emails(prefix));
            }
        }
    }
}

/// The body of a publish request.
pub struct BodyData {
    pub title: String,
    pub text: String,
    pub html: String,
    pub idempotency_key: String,
}

/// Why a publish request fails. Nothing is committed on any of these.
#[derive(Debug, PartialEq)]
pub enum PublishIssueError {
    /// The idempotency key is malformed: rejected before any transaction
    /// begins.
    InvalidIdempotencyKey(String),
    /// The key is claimed by an attempt that has not finished: a saved
    /// response was expected and none was found.
    ConcurrentRequestInFlight,
    /// The generated issue identity is already taken, so the insert
    /// aborted and the transaction rolled back.
    DuplicateIssueId,
}

/// What a publish request did, at the ghost level.
pub enum PublishOutcome {
    /// First attempt for this key: the store gained the issue, its delivery
    /// tasks and the completed idempotency record, and this response was
    /// returned.
    Accepted(ResponseV),
    /// A finished attempt already held the key: its saved response was
    /// returned verbatim and nothing changed.
    Replayed(ResponseV),
    /// The key is malformed; nothing changed.
    RejectedKey,
    /// The key is claimed but has no saved response yet; nothing changed.
    Conflict,
    /// The issue identity is taken; nothing changed.
    DuplicateIssue,
}

/// The completed idempotency record that a first attempt leaves behind.
pub open spec fn completed_record(user_id: u128, key: Seq<char>, now: i64) -> RecordV {
    RecordV { user_id, key, created_at: now, response: Some(publish_success_response_v()) }
}

/// The response of every successful publish: a redirect to the
/// issue-management page.
pub open spec fn publish_success_response_v() -> ResponseV {
    see_other_v("/admin/newsletters"@)
}

/// What one publish request does to the store, as one atomic transition:
/// the store after the request, and its outcome.
pub open spec fn publish_transition(
    s: StoreV,
    user_id: u128,
    key: Seq<char>,
    title: Seq<char>,
    text: Seq<char>,
    html: Seq<char>,
    subs: Seq<SubscriberRowV>,
    now: i64,
    issue_id: u128,
) -> (StoreV, PublishOutcome) {
    if !valid_key(key) {
        (s, PublishOutcome::RejectedKey)
    } else if has_record(s.records, user_id, key) {
        match record_of(s.records, user_id, key).response {
            Some(resp) => (s, PublishOutcome::Replayed(resp)),
            None => (s, PublishOutcome::Conflict),
        }
    } else if has_issue(s.issues, issue_id) {
        (s, PublishOutcome::DuplicateIssue)
    } else {
        let s2 = StoreV {
            records: s.records.push(completed_record(user_id, key, now)),
            issues: s.issues.push(
                IssueV { issue_id, title, text, html, published_at: now },
            ),
            tasks: s.tasks + delivery_tasks_for(subs, issue_id),
        };
        (s2, PublishOutcome::Accepted(publish_success_response_v()))
    }
}

/// Persists a new newsletter issue under `issue_id`, stamped `now`. An
/// already-taken identity aborts the insert and leaves the store unchanged.
pub fn insert_newsletter_issue(
    store: &mut Store,
    title: &String,
    text: &String,
    html: &String,
    now: i64,
    issue_id: u128,
) -> (r: Result<(), PublishIssueError>)
    requires
        store_wf(old(store)@),
    ensures
        store_wf(final(store)@),
        final(store)@.records == old(store)@.records,
        final(store)@.tasks == old(store)@.tasks,
        !has_issue(old(store)@.issues, issue_id) ==> {
            &&& r is Ok
            &&& final(store)@.issues == old(store)@.issues.push(
                IssueV {
                    issue_id,
                    title: title@,
                    text: text@,
                    html: html@,
                    published_at: now,
                },
            )
        },
        has_issue(old(store)@.issues, issue_id) ==> {
            &&& r matches Err(PublishIssueError::DuplicateIssueId)
            &&& final(store)@ == old(store)@
        },
{
    match store.find_issue_index(issue_id) {
        Some(_) => Err(PublishIssueError::DuplicateIssueId),
        None => {
            let issue = NewsletterIssue {
                issue_id,
                title: title.clone(),
                text: text.clone(),
                html: html.clone(),
                published_at: now,
            };
            store.issues.push(issue);
            proof {
                assert(store@.issues =~= old(store)@.issues.push(
                    IssueV {
                        issue_id,
                        title: title@,
                        text: text@,
                        html: html@,
                        published_at: now,
                    },
                ));
                assert(store@.records =~= old(store)@.records);
                assert(store@.tasks =~= old(store)@.tasks);
                let is2 = store@.issues;
                let n = old(store)@.issues.len() as int;
                assert forall|a: int, b: int| 0 <= a < b < is2.len() implies is2[a].issue_id
                    != is2[b].issue_id by {
                    if b < n {
                        assert(old(store)@.issues[a].issue_id != old(store)@.issues[b].issue_id);
                    } else {
                        assert(!has_issue(old(store)@.issues, issue_id));
                        assert(old(store)@.issues[a].issue_id != issue_id);
                    }
                }
                assert forall|a: int| 0 <= a < store@.tasks.len() implies has_issue(
                    store@.issues,
                    (#[trigger] store@.tasks[a]).issue_id,
                ) by {
                    assert(has_issue(old(store)@.issues, old(store)@.tasks[a].issue_id));
                    let w = choose|w: int|
                        0 <= w < old(store)@.issues.len() && (#[trigger] old(
                            store,
                        )@.issues[w]).issue_id == old(store)@.tasks[a].issue_id;
                    assert(store@.issues[w].issue_id == store@.tasks[a].issue_id);
                }
            }
            Ok(())
        },
    }
}

/// Enqueues one delivery task per confirmed subscriber for `issue_id`, as
/// one set-based insert: exactly the confirmed rows of the directory
/// listing, in order, each unclaimed.
pub fn enqueue_delivery_task(
    store: &mut Store,
    newsletter_issue_id: u128,
    subscribers: &Vec<SubscriberRow>,
) -> (r: ())
    requires
        store_wf(old(store)@),
        distinct_emails(views_of_subscribers(subscribers@)),
        has_issue(old(store)@.issues, newsletter_issue_id),
        forall|j: int|
            0 <= j < old(store)@.tasks.len() ==> (#[trigger] old(store)@.tasks[j]).issue_id
                != newsletter_issue_id,
    ensures
        store_wf(final(store)@),
        final(store)@.records == old(store)@.records,
        final(store)@.issues == old(store)@.issues,
        final(store)@.tasks == old(store)@.tasks + delivery_tasks_for(
            views_of_subscribers(subscribers@),
            newsletter_issue_id,
        ),
{
    let ghost s0 = store@;
    let ghost subv = views_of_subscribers(subscribers@);
    proof {
        assert(delivery_tasks_for(subv.subrange(0, 0), newsletter_issue_id) =~= Seq::<
            TaskV,
        >::empty());
        assert(store@.tasks =~= s0.tasks + delivery_tasks_for(
            subv.subrange(0, 0),
            newsletter_issue_id,
        ));
    }
    let mut i: usize = 0;
    while i < subscribers.len()
        invariant
            i <= subscribers.len(),
            subv == views_of_subscribers(subscribers@),
            subv.len() == subscribers@.len(),
            store@.records == s0.records,
            store@.issues == s0.issues,
            store@.tasks == s0.tasks + delivery_tasks_for(
                subv.subrange(0, i as int),
                newsletter_issue_id,
            ),
        decreases subscribers.len() - i,
    {
        let s = &subscribers[i];
        proof {
            assert(subv[i as int] == subscribers@[i as int]@);
        }
        let ghost pre = store@.tasks;
        if s.confirmed {
            let nh = DeliveryTask {
                issue_id: newsletter_issue_id,
                recipient_address: s.email.clone(),
                claimed: false,
            };
            proof {
                assert(nh@ =~= TaskV {
                    issue_id: newsletter_issue_id,
                    recipient: subv[i as int].email,
                    claimed: false,
                });
            }
            store.tasks.push(nh);
            proof {
                assert(store@.tasks =~= pre.push(nh@));
            }
        }
        proof {
            assert(subv.subrange(0, i + 1).drop_last() =~= subv.subrange(0, i as int));
            assert(subv.subrange(0, i + 1).last() == subv[i as int]);
            assert(store@.tasks =~= s0.tasks + delivery_tasks_for(
                subv.subrange(0, i + 1),
                newsletter_issue_id,
            ));
        }
        i += 1;
    }
    proof {
        assert(subv.subrange(0, subv.len() as int) =~= subv);
        let fresh = delivery_tasks_for(subv, newsletter_issue_id);
        lemma_delivery_tasks_for(subv, newsletter_issue_id);
        let ts = store@.tasks;
        assert forall|a: int, b: int| 0 <= a < b < ts.len() implies !is_task_for(
            ts[a],
            ts[b].issue_id,
            ts[b].recipient,
        ) by {
            let n = s0.tasks.len() as int;
            if b < n {
                assert(!is_task_for(s0.tasks[a], s0.tasks[b].issue_id, s0.tasks[b].recipient));
            } else {
                assert(fresh.contains(ts[b]));
                assert(ts[b].issue_id == newsletter_issue_id);
                if a < n {
                    assert(s0.tasks[a].issue_id != newsletter_issue_id);
                } else {
                    assert(!is_task_for(
                        fresh[a - n],
                        fresh[b - n].issue_id,
                        fresh[b - n].recipient,
                    ));
                }
            }
        }
        assert forall|a: int| 0 <= a < ts.len() implies has_issue(
            store@.issues,
            (#[trigger] ts[a]).issue_id,
        ) by {
            let n = s0.tasks.len() as int;
            if a < n {
                assert(has_issue(s0.issues, s0.tasks[a].issue_id));
            } else {
                assert(fresh.contains(ts[a]));
                assert(ts[a].issue_id == newsletter_issue_id);
            }
        }
    }
}

/// Publishes a newsletter issue: the whole publish transition, given the
/// request stamp `now` and the generated issue identity `issue_id`. Either
/// the issue, all its delivery tasks and the cached response commit
/// together, or the store is left exactly as it was.
pub fn newsletter_issue(
    store: &mut Store,
    user_id: u128,
    body: BodyData,
    subscribers: &Vec<SubscriberRow>,
    now: i64,
    issue_id: u128,
) -> (r: Result<HttpResponseDescriptor, PublishIssueError>)
    requires
        store_wf(old(store)@),
        distinct_emails(views_of_subscribers(subscribers@)),
    ensures
        store_wf(final(store)@),
        ({
            let (s2, outcome) = publish_transition(
                old(store)@,
                user_id,
                body.idempotency_key@,
                body.title@,
                body.text@,
                body.html@,
                views_of_subscribers(subscribers@),
                now,
                issue_id,
            );
            &&& final(store)@ == s2
            &&& match outcome {
                PublishOutcome::Accepted(v) => r matches Ok(resp) && resp@ == v,
                PublishOutcome::Replayed(v) => r matches Ok(resp) && resp@ == v,
                PublishOutcome::RejectedKey => r matches Err(
                    PublishIssueError::InvalidIdempotencyKey(_),
                ),
                PublishOutcome::Conflict => r matches Err(
                    PublishIssueError::ConcurrentRequestInFlight,
                ),
                PublishOutcome::DuplicateIssue => r matches Err(
                    PublishIssueError::DuplicateIssueId,
                ),
            }
        }),
{
    let BodyData { title, text, html, idempotency_key } = body;
    let key = match IdempotencyKey::parse(idempotency_key) {
        Err(e) => {
            return Err(PublishIssueError::InvalidIdempotencyKey(e));
        },
        Ok(k) => k,
    };
    let next = match try_processing(store, &key, user_id, now) {
        Err(IdempotencyError::MissingSavedResponse) => {
            return Err(PublishIssueError::ConcurrentRequestInFlight);
        },
        Ok(n) => n,
    };
    match next {
        NextAction::ReturnSaveResponse(resp) => Ok(resp),
        NextAction::StartProcessing => {
            let ghost claimed_records = store@.records;
            match insert_newsletter_issue(store, &title, &text, &html, now, issue_id) {
                Err(e) => {
                    // The unique-key violation aborts the whole transaction,
                    // so the in-flight claim of the key is discarded too.
                    proof {
                        assert(!has_record(old(store)@.records, user_id, key@));
                        assert(claimed_records == old(store)@.records.push(
                            in_flight_record(user_id, key@, now),
                        ));
                        assert(store.records@.map_values(|r: IdempotencyRecord| r@)
                            == claimed_records);
                    }
                    let ghost pre_pop = store.records@;
                    let _ = store.records.pop();
                    proof {
                        assert(store.records@ =~= pre_pop.subrange(0, pre_pop.len() - 1));
                        let n = old(store)@.records.len() as int;
                        assert(pre_pop.len() == n + 1);
                        assert(store@.records.len() == n);
                        assert forall|i: int| 0 <= i < n implies store@.records[i] == old(
                            store,
                        )@.records[i] by {
                            assert(store@.records[i] == store.records@[i]@);
                            assert(store.records@[i] == pre_pop[i]);
                            assert(pre_pop[i]@ == claimed_records[i]);
                        }
                        assert(store@.records =~= old(store)@.records);
                        assert(store@ =~= old(store)@);
                    }
                    Err(e)
                },
                Ok(()) => {
                    proof {
                        assert(!has_record(old(store)@.records, user_id, key@));
                        assert(!has_issue(old(store)@.issues, issue_id));
                        let n = old(store)@.issues.len() as int;
                        assert(store@.issues[n].issue_id == issue_id);
                        assert(has_issue(store@.issues, issue_id));
                        assert forall|j: int| 0 <= j < store@.tasks.len() implies (
                        #[trigger] store@.tasks[j]).issue_id != issue_id by {
                            assert(has_issue(old(store)@.issues, old(store)@.tasks[j].issue_id));
                        }
                    }
                    enqueue_delivery_task(store, issue_id, subscribers);
                    let response = save_response(
                        store,
                        &key,
                        user_id,
                        see_other("/admin/newsletters"),
                    );
                    proof {
                        let u = user_id;
                        let k = key@;
                        let r0 = old(store)@.records;
                        let n = r0.len() as int;
                        let r1 = r0.push(in_flight_record(u, k, now));
                        assert(is_record_for(r1[n], u, k));
                        assert(has_record(r1, u, k));
                        let idx = crate::store::record_index_of(r1, u, k);
                        assert(0 <= idx < r1.len() && is_record_for(r1[idx], u, k));
                        assert(idx == n) by {
                            if idx < n {
                                assert(is_record_for(r0[idx], u, k));
                                assert(has_record(r0, u, k));
                            }
                        }
                        assert(store@.records =~= r0.push(completed_record(u, k, now)));
                        let (s2, outcome) = publish_transition(
                            old(store)@,
                            u,
                            k,
                            title@,
                            text@,
                            html@,
                            views_of_subscribers(subscribers@),
                            now,
                            issue_id,
                        );
                        assert(store@ =~= s2);
                    }
                    Ok(response)
                },
            }
        },
    }
}

/// Relies on uuid::Uuid::new_v4: a fresh random identity for a new issue.
/// Nothing is promised of the value; the publish transition itself handles
/// an identity that is already taken.
#[verifier::external_body]
pub(crate) fn new_issue_id() -> u128 {
    uuid::Uuid::new_v4().as_u128()
}

/// Handles one publish request end to end: stamps it with the current time
/// and a freshly generated issue identity, then runs the atomic publish
/// transition of [`newsletter_issue`].
pub fn publish_request(
    store: &mut Store,
    user_id: u128,
    body: BodyData,
    subscribers: &Vec<SubscriberRow>,
) -> (r: Result<HttpResponseDescriptor, PublishIssueError>)
    requires
        store_wf(old(store)@),
        distinct_emails(views_of_subscribers(subscribers@)),
    ensures
        store_wf(final(store)@),
        exists|now: i64, issue_id: u128|
            {
                let (s2, outcome) = #[trigger] publish_transition(
                    old(store)@,
                    user_id,
                    body.idempotency_key@,
                    body.title@,
                    body.text@,
                    body.html@,
                    views_of_subscribers(subscribers@),
                    now,
                    issue_id,
                );
                &&& final(store)@ == s2
                &&& match outcome {
                    PublishOutcome::Accepted(v) => r matches Ok(resp) && resp@ == v,
                    PublishOutcome::Replayed(v) => r matches Ok(resp) && resp@ == v,
                    PublishOutcome::RejectedKey => r matches Err(
                        PublishIssueError::InvalidIdempotencyKey(_),
                    ),
                    PublishOutcome::Conflict => r matches Err(
                        PublishIssueError::ConcurrentRequestInFlight,
                    ),
                    PublishOutcome::DuplicateIssue => r matches Err(
                        PublishIssueError::DuplicateIssueId,
                    ),
                }
            },
{
    let now = crate::clock::unix_now();
    let issue_id = new_issue_id();
    newsletter_issue(store, user_id, body, subscribers, now, issue_id)
}

} // verus!
