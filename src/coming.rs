//! Declared arrivals: what a "coming" entry holds and how a write is read
//! from its raw text.

use vstd::prelude::*;
use crate::category::{category_of, Category, StoreError};
use crate::store::{ExpiringStore, Stamped};
use crate::time::{arrival_of, parse_arrival, Timestamp};

verus! {

/// A user's declared arrival: when it was written, why, and when the user
/// means to arrive.
#[derive(Clone, Copy, Debug, PartialEq, Eq, Structural)]
pub struct ComingEntry {
    pub edited: Timestamp,
    pub category: Category,
    pub when: Timestamp,
}

/// A coming entry stays fresh from the instant it was written.
impl Stamped for ComingEntry {
    open spec fn spec_stamp(&self) -> Timestamp {
        self.edited
    }

    fn stamp(&self) -> (r: Timestamp) {
        self.edited
    }
}

/// The instant read from arrival text that parses.
pub open spec fn arrival_instant(w: Seq<char>) -> Timestamp {
    Timestamp { secs: arrival_of(w)->Some_0.0, nanos: arrival_of(w)->Some_0.1 }
}

/// What a write of a coming entry at `now` does with already-read parts: the
/// category error comes first, then the arrival error, else the entry.
pub open spec fn coming_outcome(
    category: Result<Category, StoreError>,
    when: Option<Timestamp>,
    now: Timestamp,
) -> Result<ComingEntry, StoreError> {
    match category {
        Err(e) => Err(e),
        Ok(c) => match when {
            None => Err(StoreError::InvalidTimestamp),
            Some(w) => Ok(ComingEntry { edited: now, category: c, when: w }),
        },
    }
}

/// What a write of a coming entry at `now` does with raw category and arrival
/// text.
pub open spec fn coming_from_text(category: Seq<char>, when: Seq<char>, now: Timestamp) -> Result<ComingEntry, StoreError> {
    if category_of(category) is None {
        Err(StoreError::UnknownCategory)
    } else if arrival_of(when) is None {
        Err(StoreError::InvalidTimestamp)
    } else {
        Ok(ComingEntry { edited: now, category: category_of(category)->Some_0, when: arrival_instant(when) })
    }
}

impl ExpiringStore<ComingEntry> {
    /// Writes the entry for `id` from an already-read category and arrival
    /// time. On an error the store is left as it was.
    pub fn apply_coming(
        &mut self,
        id: String,
        category: Result<Category, StoreError>,
        when: Option<Timestamp>,
        now: &Timestamp,
    ) -> (r: Result<(), StoreError>)
        requires
            old(self).wf(),
        ensures
            final(self).wf(),
            final(self)@.dom().finite(),
            match coming_outcome(category, when, *now) {
                Ok(e) => r is Ok && final(self)@ == old(self)@.insert(id@, e),
                Err(err) => r == Err::<(), StoreError>(err) && final(self)@ == old(self)@,
            },
    {
        proof {
            self.lemma_finite();
        }
        match category {
            Err(e) => Err(e),
            Ok(c) => match when {
                None => Err(StoreError::InvalidTimestamp),
                Some(w) => {
                    self.upsert(id, ComingEntry { edited: *now, category: c, when: w });
                    Ok(())
                },
            },
        }
    }

    /// Writes the entry for `id` at `now` from raw text: the category by its
    /// exact name, the arrival as `DD.MM.YYYY HH:MM:SS` in UTC. Any earlier
    /// entry for `id` is replaced. On an error the store is left as it was.
    pub fn upsert_coming(
        &mut self,
        id: String,
        category: &str,
        when: &str,
        now: &Timestamp,
    ) -> (r: Result<(), StoreError>)
        requires
            old(self).wf(),
        ensures
            final(self).wf(),
            final(self)@.dom().finite(),
            match coming_from_text(category@, when@, *now) {
                Ok(e) => r is Ok && final(self)@ == old(self)@.insert(id@, e),
                Err(err) => r == Err::<(), StoreError>(err) && final(self)@ == old(self)@,
            },
    {
        let c = Category::parse(category);
        let w = parse_arrival(when);
        self.apply_coming(id, c, w, now)
    }
}

} // verus!
