//! The idempotency mechanism of the publish operation: claiming a (user,
//! key) pair, replaying a saved response, and persisting the response of a
//! finished attempt.
//!
//! The uniqueness of (user, key) in the idempotency table is the sole mutual
//! exclusion mechanism for concurrent publish attempts with the same key:
//! the attempt that inserts the row performs the real work, every later
//! attempt observes the saved response.

use vstd::prelude::*;

use crate::idempotency_key::IdempotencyKey;
use crate::response::HttpResponseDescriptor;
use crate::store::has_record;
use crate::store::is_record_for;
use crate::store::record_index_of;
use crate::store::record_of;
use crate::store::store_wf;
use crate::store::IdempotencyRecord;
use crate::store::RecordV;
use crate::store::Store;

verus! {

/// What a publish attempt must do next after claiming its idempotency key.
#[derive(Debug)]
pub enum NextAction {
    /// The key was free and is now claimed in flight: perform the real work.
    StartProcessing,
    /// A finished attempt already holds the key: return its response
    /// verbatim and do nothing else.
    ReturnSaveResponse(HttpResponseDescriptor),
}

/// The error of a retry that arrives while the original attempt is still in
/// flight: the record exists but no response has been saved yet.
#[derive(Debug, PartialEq)]
pub enum IdempotencyError {
    MissingSavedResponse,
}

/// The record inserted when a publish attempt first claims its key.
pub open spec fn in_flight_record(user_id: u128, key: Seq<char>, now: i64) -> RecordV {
    RecordV { user_id, key, created_at: now, response: None }
}

/// Claims `(user_id, idempotency_key)` with insert-on-conflict-do-nothing
/// semantics, in one transaction:
///
/// * no record yet: an in-flight record stamped `now` is inserted and the
///   caller is told to start processing;
/// * a completed record: the store is untouched and the saved response is
///   returned for replay;
/// * an in-flight record: the store is untouched and the retry fails,
///   because a saved response was expected and none was found.
pub fn try_processing(
    store: &mut Store,
    idempotency_key: &IdempotencyKey,
    user_id: u128,
    now: i64,
) -> (r: Result<NextAction, IdempotencyError>)
    requires
        store_wf(old(store)@),
    ensures
        store_wf(final(store)@),
        final(store)@.issues == old(store)@.issues,
        final(store)@.tasks == old(store)@.tasks,
        !has_record(old(store)@.records, user_id, idempotency_key@) ==> {
            &&& final(store)@.records == old(store)@.records.push(
                in_flight_record(user_id, idempotency_key@, now),
            )
            &&& r matches Ok(NextAction::StartProcessing)
        },
        has_record(old(store)@.records, user_id, idempotency_key@) ==> {
            &&& final(store)@ == old(store)@
            &&& match record_of(old(store)@.records, user_id, idempotency_key@).response {
                Some(resp) => r matches Ok(NextAction::ReturnSaveResponse(out)) && out@ == resp,
                None => r matches Err(IdempotencyError::MissingSavedResponse),
            }
        },
{
    let found = store.find_record_index(user_id, idempotency_key.as_string());
    match found {
        None => {
            let rec = IdempotencyRecord {
                user_id,
                idempotency_key: idempotency_key.as_string().clone(),
                created_at: now,
                response: None,
            };
            store.records.push(rec);
            proof {
                assert(store@.records =~= old(store)@.records.push(
                    in_flight_record(user_id, idempotency_key@, now),
                ));
                assert(store@.issues =~= old(store)@.issues);
                assert(store@.tasks =~= old(store)@.tasks);
                let rs = store@.records;
                let n = old(store)@.records.len() as int;
                assert forall|i: int, j: int| 0 <= i < j < rs.len() implies !is_record_for(
                    rs[i],
                    rs[j].user_id,
                    rs[j].key,
                ) by {
                    if j < n {
                        assert(is_record_for(old(store)@.records[i], rs[j].user_id, rs[j].key)
                            ==> false);
                    } else {
                        assert(!is_record_for(old(store)@.records[i], user_id, idempotency_key@));
                    }
                }
            }
            Ok(NextAction::StartProcessing)
        },
        Some(i) => {
            proof {
                assert(record_of(old(store)@.records, user_id, idempotency_key@) == old(
                    store,
                )@.records[i as int]);
            }
            match &store.records[i].response {
                Some(resp) => {
                    let out = resp.duplicate();
                    Ok(NextAction::ReturnSaveResponse(out))
                },
                None => Err(IdempotencyError::MissingSavedResponse),
            }
        },
    }
}

/// The saved response of `(user_id, idempotency_key)`, if that pair has a
/// completed record.
pub fn get_saved_response(
    store: &Store,
    idempotency_key: &IdempotencyKey,
    user_id: u128,
) -> (r: Option<HttpResponseDescriptor>)
    requires
        store_wf(store@),
    ensures
        match r {
            Some(out) => {
                &&& has_record(store@.records, user_id, idempotency_key@)
                &&& record_of(store@.records, user_id, idempotency_key@).response == Some(out@)
            },
            None => !has_record(store@.records, user_id, idempotency_key@) || record_of(
                store@.records,
                user_id,
                idempotency_key@,
            ).response is None,
        },
{
    let found = store.find_record_index(user_id, idempotency_key.as_string());
    match found {
        None => None,
        Some(i) => {
            proof {
                assert(record_of(store@.records, user_id, idempotency_key@) == store@.records[
                    i as int
                ]);
            }
            match &store.records[i].response {
                Some(resp) => Some(resp.duplicate()),
                None => None,
            }
        },
    }
}

/// Saves `http_response` as the outcome of `(user_id, idempotency_key)` and
/// commits: the completed record replays exactly this response from now on.
/// A pair that was never claimed is left untouched (zero rows updated). The
/// response is handed back unchanged for the caller to return.
pub fn save_response(
    store: &mut Store,
    idempotency_key: &IdempotencyKey,
    user_id: u128,
    http_response: HttpResponseDescriptor,
) -> (r: HttpResponseDescriptor)
    requires
        store_wf(old(store)@),
    ensures
        store_wf(final(store)@),
        final(store)@.issues == old(store)@.issues,
        final(store)@.tasks == old(store)@.tasks,
        r@ == http_response@,
        has_record(old(store)@.records, user_id, idempotency_key@) ==> final(store)@.records
            == old(store)@.records.update(
            record_index_of(old(store)@.records, user_id, idempotency_key@),
            RecordV {
                response: Some(http_response@),
                ..record_of(old(store)@.records, user_id, idempotency_key@)
            },
        ),
        !has_record(old(store)@.records, user_id, idempotency_key@) ==> final(store)@ == old(
            store,
        )@,
{
    let found = store.find_record_index(user_id, idempotency_key.as_string());
    match found {
        None => http_response,
        Some(i) => {
            let ghost old_store = store@;
            let ghost idx = record_index_of(old_store.records, user_id, idempotency_key@);
            let prev = &store.records[i];
            let rec = IdempotencyRecord {
                user_id: prev.user_id,
                idempotency_key: prev.idempotency_key.clone(),
                created_at: prev.created_at,
                response: Some(http_response.duplicate()),
            };
            proof {
                assert(rec@ =~= RecordV {
                    response: Some(http_response@),
                    ..record_of(old_store.records, user_id, idempotency_key@)
                });
            }
            store.records.set(i, rec);
            proof {
                assert(store@.records =~= old_store.records.update(idx, rec@));
                assert(store@.issues =~= old_store.issues);
                assert(store@.tasks =~= old_store.tasks);
                let rs = store@.records;
                assert forall|a: int, b: int| 0 <= a < b < rs.len() implies !is_record_for(
                    rs[a],
                    rs[b].user_id,
                    rs[b].key,
                ) by {
                    assert(rs[a].user_id == old_store.records[a].user_id && rs[a].key
                        == old_store.records[a].key);
                    assert(rs[b].user_id == old_store.records[b].user_id && rs[b].key
                        == old_store.records[b].key);
                    assert(!is_record_for(
                        old_store.records[a],
                        old_store.records[b].user_id,
                        old_store.records[b].key,
                    ));
                }
            }
            http_response
        },
    }
}

} // verus!
