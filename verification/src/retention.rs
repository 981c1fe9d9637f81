//! The retention sweeper: one run scans the idempotency table and deletes
//! every record older than the retention window, bounding the store's
//! growth. Records younger than the window are kept whether or not they
//! have completed.

use vstd::prelude::*;

use crate::store::has_issue;
use crate::store::is_record_for;
use crate::store::records_unique;
use crate::store::store_wf;
use crate::store::IdempotencyRecord;
use crate::store::RecordV;
use crate::store::Store;

verus! {

/// How long an idempotency record is retained: 12 hours, in seconds.
pub const RETENTION_SECONDS: i64 = 12 * 60 * 60;

/// Whether a record has outlived the retention window at time `now`.
pub open spec fn expired(r: RecordV, now: i64) -> bool {
    now - r.created_at >= RETENTION_SECONDS
}

/// The records one sweep at time `now` keeps: exactly those not yet
/// expired, in order.
pub open spec fn retained_records(rs: Seq<RecordV>, now: i64) -> Seq<RecordV>
    decreases rs.len(),
{
    if rs.len() == 0 {
        Seq::empty()
    } else {
        let init = retained_records(rs.drop_last(), now);
        if expired(rs.last(), now) {
            init
        } else {
            init.push(rs.last())
        }
    }
}

/// A sweep keeps a record if and only if the record has not expired, and
/// keeps the table's uniqueness.
pub proof fn lemma_retained_records(rs: Seq<RecordV>, now: i64)
    ensures
        forall|t: RecordV| #[trigger] retained_records(rs, now).contains(t) ==> rs.contains(t)
            && !expired(t, now),
        forall|i: int|
            0 <= i < rs.len() && !expired(#[trigger] rs[i], now) ==> retained_records(
                rs,
                now,
            ).contains(rs[i]),
        records_unique(rs) ==> records_unique(retained_records(rs, now)),
    decreases rs.len(),
{
    if rs.len() > 0 {
        let prefix = rs.drop_last();
        lemma_retained_records(prefix, now);
        let out = retained_records(rs, now);
        let init = retained_records(prefix, now);
        assert(forall|j: int| 0 <= j < prefix.len() ==> prefix[j] == rs[j]);
        assert forall|t: RecordV| #[trigger] out.contains(t) implies rs.contains(t) && !expired(
            t,
            now,
        ) by {
            if !expired(rs.last(), now) {
                let w = choose|w: int| 0 <= w < out.len() && out[w] == t;
                if w < init.len() {
                    assert(init.contains(t));
                    let v = choose|v: int| 0 <= v < prefix.len() && prefix[v] == t;
                    assert(rs[v] == t);
                } else {
                    assert(t == rs.last());
                    assert(rs[rs.len() - 1] == t);
                }
            } else {
                assert(init.contains(t));
                let v = choose|v: int| 0 <= v < prefix.len() && prefix[v] == t;
                assert(rs[v] == t);
            }
        }
        assert forall|i: int| 0 <= i < rs.len() && !expired(#[trigger] rs[i], now) implies
            out.contains(rs[i]) by {
            if i < rs.len() - 1 {
                assert(prefix[i] == rs[i]);
                assert(init.contains(rs[i]));
                let v = choose|v: int| 0 <= v < init.len() && init[v] == rs[i];
                if !expired(rs.last(), now) {
                    assert(out[v] == rs[i]);
                } else {
                    assert(out[v] == rs[i]);
                }
            } else {
                assert(rs[i] == rs.last());
                assert(out[out.len() - 1] == rs.last());
            }
        }
        if records_unique(rs) {
            assert(records_unique(prefix));
            if !expired(rs.last(), now) {
                assert forall|a: int, b: int| 0 <= a < b < out.len() implies !is_record_for(
                    out[a],
                    out[b].user_id,
                    out[b].key,
                ) by {
                    if b < init.len() {
                        assert(!is_record_for(init[a], init[b].user_id, init[b].key));
                    } else {
                        assert(out[b] == rs.last());
                        assert(init.contains(init[a]));
                        let v = choose|v: int| 0 <= v < prefix.len() && prefix[v] == init[a];
                        assert(!is_record_for(
                            rs[v],
                            rs[rs.len() - 1].user_id,
                            rs[rs.len() - 1].key,
                        ));
                    }
                }
            }
        }
    }
}

/// One sweeper run at time `now`: scans the idempotency table inside one
/// transaction and deletes every record created at least
/// [`RETENTION_SECONDS`] before `now`. Issues and queued tasks are never
/// touched.
pub fn idempotency_worker(store: &mut Store, now: i64) -> (r: ())
    requires
        store_wf(old(store)@),
    ensures
        store_wf(final(store)@),
        final(store)@.issues == old(store)@.issues,
        final(store)@.tasks == old(store)@.tasks,
        final(store)@.records == retained_records(old(store)@.records, now),
{
    let ghost s0 = store@;
    let mut kept: Vec<IdempotencyRecord> = Vec::new();
    proof {
        assert(retained_records(s0.records.subrange(0, 0), now) =~= Seq::<RecordV>::empty());
        assert(kept@.map_values(|r: IdempotencyRecord| r@) =~= retained_records(
            s0.records.subrange(0, 0),
            now,
        ));
    }
    let mut i: usize = 0;
    while i < store.records.len()
        invariant
            i <= store.records.len(),
            store@ == s0,
            kept@.map_values(|r: IdempotencyRecord| r@) == retained_records(
                s0.records.subrange(0, i as int),
                now,
            ),
        decreases store.records.len() - i,
    {
        let rec = &store.records[i];
        let ghost pre = kept@.map_values(|r: IdempotencyRecord| r@);
        if !((now as i128) - (rec.created_at as i128) >= (RETENTION_SECONDS as i128)) {
            let dup = rec.duplicate();
            kept.push(dup);
            proof {
                assert(kept@.map_values(|r: IdempotencyRecord| r@) =~= pre.push(
                    s0.records[i as int],
                ));
            }
        }
        proof {
            assert(s0.records.subrange(0, i + 1).drop_last() =~= s0.records.subrange(0, i as int));
            assert(s0.records.subrange(0, i + 1).last() == s0.records[i as int]);
            assert(expired(s0.records[i as int], now) == ((now as i128) - (
            store.records@[i as int]@.created_at as i128) >= (RETENTION_SECONDS as i128)));
            assert(kept@.map_values(|r: IdempotencyRecord| r@) =~= retained_records(
                s0.records.subrange(0, i + 1),
                now,
            ));
        }
        i += 1;
    }
    proof {
        assert(s0.records.subrange(0, s0.records.len() as int) =~= s0.records);
    }
    store.records = kept;
    proof {
        assert(store@.records =~= retained_records(s0.records, now));
        assert(store@.issues =~= s0.issues);
        assert(store@.tasks =~= s0.tasks);
        lemma_retained_records(s0.records, now);
        assert forall|a: int| 0 <= a < store@.tasks.len() implies has_issue(
            store@.issues,
            (#[trigger] store@.tasks[a]).issue_id,
        ) by {
            assert(has_issue(s0.issues, s0.tasks[a].issue_id));
        }
    }
}

} // verus!
