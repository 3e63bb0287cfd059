//! The operations of the board, one per request: each reads the clock where
//! it needs the time and works on exactly one of the two stores. Whoever
//! shares the stores between requests holds each behind its own lock, taken
//! for one operation at a time.

use std::collections::HashMap;
use vstd::prelude::*;
use crate::category::{category_of, StoreError};
use crate::coming::{coming_from_text, ComingEntry};
use crate::store::{fresh_part, lists, ExpiringStore};
use crate::time::{arrival_of, clock_now, Timestamp, NANOS_PER_SEC};

verus! {

/// Marks `nickname` as present at the instant the clock reads now. Nothing
/// is evicted: every other entry stays, stale or not.
pub fn put_presence(store: &mut ExpiringStore<Timestamp>, nickname: String)
    requires
        old(store).wf(),
    ensures
        final(store).wf(),
        final(store)@.dom().finite(),
        exists|now: Timestamp|
            now.nanos < NANOS_PER_SEC && final(store)@ == old(store)@.insert(nickname@, now),
{
    let now = clock_now();
    store.upsert(nickname, now);
}

/// Removes the presence of `nickname`; nothing changes where there is none.
pub fn delete_presence(store: &mut ExpiringStore<Timestamp>, nickname: &str)
    requires
        old(store).wf(),
    ensures
        final(store).wf(),
        final(store)@.dom().finite(),
        final(store)@ == old(store)@.remove(nickname@),
{
    store.remove(nickname);
}

/// Evicts the presence entries that are stale at the instant the clock reads
/// now, then lists all that remain.
pub fn list_presence(store: &mut ExpiringStore<Timestamp>) -> (r: Vec<(String, Timestamp)>)
    requires
        old(store).wf(),
    ensures
        final(store).wf(),
        final(store)@.dom().finite(),
        exists|now: Timestamp|
            now.nanos < NANOS_PER_SEC && final(store)@ == fresh_part(old(store)@, now),
        lists(r@, final(store)@),
{
    let now = clock_now();
    store.list_fresh(&now)
}

/// Writes the coming entry of `nickname` from raw category and arrival text,
/// stamped with the instant the clock reads now. On an unknown category, then
/// on arrival text that does not parse, it fails and leaves the store as it
/// was; otherwise any earlier entry for `nickname` is replaced and every other
/// entry stays.
pub fn put_coming(store: &mut ExpiringStore<ComingEntry>, nickname: String, category: &str, when: &str) -> (r:
    Result<(), StoreError>)
    requires
        old(store).wf(),
    ensures
        final(store).wf(),
        final(store)@.dom().finite(),
        category_of(category@) is None ==> r == Err::<(), StoreError>(StoreError::UnknownCategory),
        category_of(category@) is Some && arrival_of(when@) is None ==> r == Err::<(), StoreError>(
            StoreError::InvalidTimestamp,
        ),
        r is Err ==> final(store)@ == old(store)@,
        exists|now: Timestamp|
            now.nanos < NANOS_PER_SEC && match coming_from_text(category@, when@, now) {
                Ok(e) => r is Ok && final(store)@ == old(store)@.insert(nickname@, e),
                Err(err) => r == Err::<(), StoreError>(err) && final(store)@ == old(store)@,
            },
{
    let now = clock_now();
    store.upsert_coming(nickname, category, when, &now)
}

/// Removes the coming entry of `nickname`; nothing changes where there is none.
pub fn delete_coming(store: &mut ExpiringStore<ComingEntry>, nickname: &str)
    requires
        old(store).wf(),
    ensures
        final(store).wf(),
        final(store)@.dom().finite(),
        final(store)@ == old(store)@.remove(nickname@),
{
    store.remove(nickname);
}

/// Evicts the coming entries that are stale at the instant the clock reads
/// now, then lists all that remain.
pub fn list_coming(store: &mut ExpiringStore<ComingEntry>) -> (r: Vec<(String, ComingEntry)>)
    requires
        old(store).wf(),
    ensures
        final(store).wf(),
        final(store)@.dom().finite(),
        exists|now: Timestamp|
            now.nanos < NANOS_PER_SEC && final(store)@ == fresh_part(old(store)@, now),
        lists(r@, final(store)@),
{
    let now = clock_now();
    store.list_fresh(&now)
}

/// A reply that carries only a message.
pub struct Response {
    pub message: String,
}

impl Response {
    /// The reply of a health check.
    pub fn healthy() -> (r: Response)
        ensures
            r.message@ == "Everything is working fine"@,
    {
        Response { message: "Everything is working fine".to_owned() }
    }

    /// The reply to a request for nothing that the board serves.
    pub fn not_found() -> (r: Response)
        ensures
            r.message@ == "Resource not found"@,
    {
        Response { message: "Resource not found".to_owned() }
    }
}

/// The presence listing as sent: identifier to last-seen time as text.
pub struct PresenceResponse {
    pub users: HashMap<String, String>,
}

/// The coming listing as sent: identifier to entry.
pub struct ComingResponse {
    pub users: HashMap<String, ComingEntry>,
}

} // verus!
