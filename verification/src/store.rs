//! The durable state of the delivery pipeline: idempotency records, published
//! newsletter issues, and the per-recipient delivery queue. The three tables
//! are held in one value so that every operation on them is one atomic
//! transaction: a method either applies its whole effect or, when it fails,
//! leaves the store exactly as it was.
//!
//! Claimed queue rows model row-level locks: a claimed task is invisible to
//! other consumers until it is deleted (commit) or released (rollback).

use vstd::prelude::*;

use crate::response::HttpResponseDescriptor;
use crate::response::ResponseV;

verus! {

/// One row of the idempotency table: the outcome cache of one (user, key)
/// publish attempt. `response` is unset while the attempt is in flight.
pub struct IdempotencyRecord {
    pub user_id: u128,
    pub idempotency_key: String,
    pub created_at: i64,
    pub response: Option<HttpResponseDescriptor>,
}

/// Ghost image of an idempotency record.
#[verifier::ext_equal]
pub struct RecordV {
    pub user_id: u128,
    pub key: Seq<char>,
    pub created_at: i64,
    pub response: Option<ResponseV>,
}

impl View for IdempotencyRecord {
    type V = RecordV;

    open spec fn view(&self) -> RecordV {
        RecordV {
            user_id: self.user_id,
            key: self.idempotency_key@,
            created_at: self.created_at,
            response: match self.response {
                Some(r) => Some(r@),
                None => None,
            },
        }
    }
}

impl IdempotencyRecord {
    /// A copy whose ghost image equals this one's, field for field.
    pub fn duplicate(&self) -> (r: Self)
        ensures
            r@ == self@,
    {
        IdempotencyRecord {
            user_id: self.user_id,
            idempotency_key: self.idempotency_key.clone(),
            created_at: self.created_at,
            response: match &self.response {
                Some(resp) => Some(resp.duplicate()),
                None => None,
            },
        }
    }
}

/// One row of the issue table: the immutable content of one published issue.
pub struct NewsletterIssue {
    pub issue_id: u128,
    pub title: String,
    pub text: String,
    pub html: String,
    pub published_at: i64,
}

/// Ghost image of a newsletter issue.
#[verifier::ext_equal]
pub struct IssueV {
    pub issue_id: u128,
    pub title: Seq<char>,
    pub text: Seq<char>,
    pub html: Seq<char>,
    pub published_at: i64,
}

impl View for NewsletterIssue {
    type V = IssueV;

    open spec fn view(&self) -> IssueV {
        IssueV {
            issue_id: self.issue_id,
            title: self.title@,
            text: self.text@,
            html: self.html@,
            published_at: self.published_at,
        }
    }
}

/// One row of the delivery queue: the obligation to send one issue to one
/// recipient. `claimed` models a row lock held by a worker's transaction.
pub struct DeliveryTask {
    pub issue_id: u128,
    pub recipient_address: String,
    pub claimed: bool,
}

/// Ghost image of a delivery task.
#[verifier::ext_equal]
pub struct TaskV {
    pub issue_id: u128,
    pub recipient: Seq<char>,
    pub claimed: bool,
}

impl View for DeliveryTask {
    type V = TaskV;

    open spec fn view(&self) -> TaskV {
        TaskV {
            issue_id: self.issue_id,
            recipient: self.recipient_address@,
            claimed: self.claimed,
        }
    }
}

/// Ghost image of the whole store.
#[verifier::ext_equal]
pub struct StoreV {
    pub records: Seq<RecordV>,
    pub issues: Seq<IssueV>,
    pub tasks: Seq<TaskV>,
}

/// Whether `r` is the idempotency record of `(user_id, key)`.
pub open spec fn is_record_for(r: RecordV, user_id: u128, key: Seq<char>) -> bool {
    r.user_id == user_id && r.key == key
}

/// Whether the idempotency table holds a record for `(user_id, key)`.
pub open spec fn has_record(rs: Seq<RecordV>, user_id: u128, key: Seq<char>) -> bool {
    exists|i: int| 0 <= i < rs.len() && is_record_for(#[trigger] rs[i], user_id, key)
}

/// The position of the record of `(user_id, key)`; meaningful only when
/// `has_record` holds (unique positions under `records_unique`).
pub open spec fn record_index_of(rs: Seq<RecordV>, user_id: u128, key: Seq<char>) -> int {
    choose|i: int| 0 <= i < rs.len() && is_record_for(#[trigger] rs[i], user_id, key)
}

/// The record of `(user_id, key)`; meaningful only when `has_record` holds.
pub open spec fn record_of(rs: Seq<RecordV>, user_id: u128, key: Seq<char>) -> RecordV {
    rs[record_index_of(rs, user_id, key)]
}

/// Whether the issue table holds `issue_id`.
pub open spec fn has_issue(issues: Seq<IssueV>, issue_id: u128) -> bool {
    exists|i: int| 0 <= i < issues.len() && (#[trigger] issues[i]).issue_id == issue_id
}

/// The position of issue `issue_id`; meaningful only when `has_issue` holds.
pub open spec fn issue_index_of(issues: Seq<IssueV>, issue_id: u128) -> int {
    choose|i: int| 0 <= i < issues.len() && (#[trigger] issues[i]).issue_id == issue_id
}

/// The issue with identity `issue_id`; meaningful only when `has_issue` holds.
pub open spec fn issue_of(issues: Seq<IssueV>, issue_id: u128) -> IssueV {
    issues[issue_index_of(issues, issue_id)]
}

/// Whether `t` is the task of `(issue_id, recipient)`.
pub open spec fn is_task_for(t: TaskV, issue_id: u128, recipient: Seq<char>) -> bool {
    t.issue_id == issue_id && t.recipient == recipient
}

/// Whether the queue holds a task for `(issue_id, recipient)`.
pub open spec fn has_task(ts: Seq<TaskV>, issue_id: u128, recipient: Seq<char>) -> bool {
    exists|i: int| 0 <= i < ts.len() && is_task_for(#[trigger] ts[i], issue_id, recipient)
}

/// The position of the task of `(issue_id, recipient)`; meaningful only when
/// `has_task` holds (unique positions under `tasks_unique`).
pub open spec fn task_index_of(ts: Seq<TaskV>, issue_id: u128, recipient: Seq<char>) -> int {
    choose|i: int| 0 <= i < ts.len() && is_task_for(#[trigger] ts[i], issue_id, recipient)
}

/// The pair (user, key) is unique across the idempotency table.
pub open spec fn records_unique(rs: Seq<RecordV>) -> bool {
    forall|i: int, j: int|
        0 <= i < j < rs.len() ==> !is_record_for(
            #[trigger] rs[i],
            (#[trigger] rs[j]).user_id,
            rs[j].key,
        )
}

/// Issue identities are unique across the issue table.
pub open spec fn issues_unique(issues: Seq<IssueV>) -> bool {
    forall|i: int, j: int|
        0 <= i < j < issues.len() ==> (#[trigger] issues[i]).issue_id != (
        #[trigger] issues[j]).issue_id
}

/// The pair (issue, recipient) is unique across the queue.
pub open spec fn tasks_unique(ts: Seq<TaskV>) -> bool {
    forall|i: int, j: int|
        0 <= i < j < ts.len() ==> !is_task_for(
            #[trigger] ts[i],
            (#[trigger] ts[j]).issue_id,
            ts[j].recipient,
        )
}

/// Every queued task refers to a published issue.
pub open spec fn tasks_reference_issues(ts: Seq<TaskV>, issues: Seq<IssueV>) -> bool {
    forall|i: int| 0 <= i < ts.len() ==> has_issue(issues, (#[trigger] ts[i]).issue_id)
}

/// The store's invariant: the three uniqueness constraints of the schema and
/// the foreign key from the queue into the issue table.
pub open spec fn store_wf(s: StoreV) -> bool {
    &&& records_unique(s.records)
    &&& issues_unique(s.issues)
    &&& tasks_unique(s.tasks)
    &&& tasks_reference_issues(s.tasks, s.issues)
}

/// The durable store itself.
pub struct Store {
    pub records: Vec<IdempotencyRecord>,
    pub issues: Vec<NewsletterIssue>,
    pub tasks: Vec<DeliveryTask>,
}

impl View for Store {
    type V = StoreV;

    open spec fn view(&self) -> StoreV {
        StoreV {
            records: self.records@.map_values(|r: IdempotencyRecord| r@),
            issues: self.issues@.map_values(|r: NewsletterIssue| r@),
            tasks: self.tasks@.map_values(|r: DeliveryTask| r@),
        }
    }
}

impl Store {
    /// An empty store: no records, no issues, no queued tasks.
    pub fn new() -> (r: Store)
        ensures
            r@ == (StoreV {
                records: Seq::<RecordV>::empty(),
                issues: Seq::<IssueV>::empty(),
                tasks: Seq::<TaskV>::empty(),
            }),
            store_wf(r@),
    {
        let r = Store { records: Vec::new(), issues: Vec::new(), tasks: Vec::new() };
        proof {
            assert(r@ =~= StoreV {
                records: Seq::<RecordV>::empty(),
                issues: Seq::<IssueV>::empty(),
                tasks: Seq::<TaskV>::empty(),
            });
        }
        r
    }

    /// Finds the position of the record of `(user_id, key)`, if any.
    pub(crate) fn find_record_index(&self, user_id: u128, key: &String) -> (r: Option<usize>)
        ensures
            match r {
                Some(i) => {
                    &&& i < self@.records.len()
                    &&& is_record_for(self@.records[i as int], user_id, key@)
                    &&& (records_unique(self@.records) ==> i == record_index_of(
                        self@.records,
                        user_id,
                        key@,
                    ))
                },
                None => !has_record(self@.records, user_id, key@),
            },
            r is Some <==> has_record(self@.records, user_id, key@),
    {
        let mut i: usize = 0;
        while i < self.records.len()
            invariant
                i <= self.records.len(),
                forall|j: int|
                    0 <= j < i ==> !is_record_for(#[trigger] self@.records[j], user_id, key@),
            decreases self.records.len() - i,
        {
            let rec = &self.records[i];
            if rec.user_id == user_id && rec.idempotency_key == *key {
                proof {
                    assert(is_record_for(self@.records[i as int], user_id, key@));
                    if records_unique(self@.records) {
                        assert(has_record(self@.records, user_id, key@));
                        let j = record_index_of(self@.records, user_id, key@);
                        assert(0 <= j < self@.records.len() && is_record_for(
                            self@.records[j],
                            user_id,
                            key@,
                        ));
                        assert(j == i as int) by {
                            if j < i as int {
                                assert(!is_record_for(
                                    self@.records[j],
                                    self@.records[i as int].user_id,
                                    self@.records[i as int].key,
                                ));
                            } else if (i as int) < j {
                                assert(!is_record_for(
                                    self@.records[i as int],
                                    self@.records[j].user_id,
                                    self@.records[j].key,
                                ));
                            }
                        }
                    }
                }
                return Some(i);
            }
            i += 1;
        }
        None
    }

    /// Finds the position of issue `issue_id`, if it was published.
    pub(crate) fn find_issue_index(&self, issue_id: u128) -> (r: Option<usize>)
        ensures
            match r {
                Some(i) => {
                    &&& i < self@.issues.len()
                    &&& self@.issues[i as int].issue_id == issue_id
                    &&& (issues_unique(self@.issues) ==> i == issue_index_of(
                        self@.issues,
                        issue_id,
                    ))
                },
                None => !has_issue(self@.issues, issue_id),
            },
            r is Some <==> has_issue(self@.issues, issue_id),
    {
        let mut i: usize = 0;
        while i < self.issues.len()
            invariant
                i <= self.issues.len(),
                forall|j: int| 0 <= j < i ==> (#[trigger] self@.issues[j]).issue_id != issue_id,
            decreases self.issues.len() - i,
        {
            if self.issues[i].issue_id == issue_id {
                proof {
                    assert(self@.issues[i as int].issue_id == issue_id);
                    assert(has_issue(self@.issues, issue_id));
                    if issues_unique(self@.issues) {
                        let j = issue_index_of(self@.issues, issue_id);
                        assert(0 <= j < self@.issues.len() && self@.issues[j].issue_id == issue_id);
                    }
                }
                return Some(i);
            }
            i += 1;
        }
        None
    }

    /// Finds the position of the task of `(issue_id, recipient)`, if queued.
    pub(crate) fn find_task_index(&self, issue_id: u128, recipient: &String) -> (r: Option<usize>)
        ensures
            match r {
                Some(i) => {
                    &&& i < self@.tasks.len()
                    &&& is_task_for(self@.tasks[i as int], issue_id, recipient@)
                    &&& (tasks_unique(self@.tasks) ==> i == task_index_of(
                        self@.tasks,
                        issue_id,
                        recipient@,
                    ))
                },
                None => !has_task(self@.tasks, issue_id, recipient@),
            },
            r is Some <==> has_task(self@.tasks, issue_id, recipient@),
    {
        let mut i: usize = 0;
        while i < self.tasks.len()
            invariant
                i <= self.tasks.len(),
                forall|j: int|
                    0 <= j < i ==> !is_task_for(#[trigger] self@.tasks[j], issue_id, recipient@),
            decreases self.tasks.len() - i,
        {
            let t = &self.tasks[i];
            if t.issue_id == issue_id && t.recipient_address == *recipient {
                proof {
                    assert(is_task_for(self@.tasks[i as int], issue_id, recipient@));
                    if tasks_unique(self@.tasks) {
                        assert(has_task(self@.tasks, issue_id, recipient@));
                        let j = task_index_of(self@.tasks, issue_id, recipient@);
                        assert(0 <= j < self@.tasks.len() && is_task_for(
                            self@.tasks[j],
                            issue_id,
                            recipient@,
                        ));
                        assert(j == i as int) by {
                            if j < i as int {
                                assert(!is_task_for(
                                    self@.tasks[j],
                                    self@.tasks[i as int].issue_id,
                                    self@.tasks[i as int].recipient,
                                ));
                            } else if (i as int) < j {
                                assert(!is_task_for(
                                    self@.tasks[i as int],
                                    self@.tasks[j].issue_id,
                                    self@.tasks[j].recipient,
                                ));
                            }
                        }
                    }
                }
                return Some(i);
            }
            i += 1;
        }
        None
    }

    /// Finds the position of some unclaimed task, if one exists. This models
    /// a `select ... for update skip locked limit 1` scan: claimed rows are
    /// skipped, any unclaimed row may be returned.
    pub(crate) fn find_unclaimed_task_index(&self) -> (r: Option<usize>)
        ensures
            match r {
                Some(i) => i < self@.tasks.len() && !self@.tasks[i as int].claimed,
                None => forall|j: int|
                    0 <= j < self@.tasks.len() ==> (#[trigger] self@.tasks[j]).claimed,
            },
    {
        let mut i: usize = 0;
        while i < self.tasks.len()
            invariant
                i <= self.tasks.len(),
                forall|j: int| 0 <= j < i ==> (#[trigger] self@.tasks[j]).claimed,
            decreases self.tasks.len() - i,
        {
            if !self.tasks[i].claimed {
                return Some(i);
            }
            i += 1;
        }
        None
    }

    /// How many idempotency records the store holds.
    pub fn record_count(&self) -> (n: usize)
        ensures
            n == self@.records.len(),
    {
        self.records.len()
    }

    /// How many issues have been published.
    pub fn issue_count(&self) -> (n: usize)
        ensures
            n == self@.issues.len(),
    {
        self.issues.len()
    }

    /// How many delivery tasks are queued (claimed or not).
    pub fn task_count(&self) -> (n: usize)
        ensures
            n == self@.tasks.len(),
    {
        self.tasks.len()
    }
}

} // verus!
