//! The mathematical model of a set of token buckets.
//!
//! Time is counted in nanoseconds from a fixed origin and credit in fractions of
//! a token: a bucket that refills `n` tokens a minute gains `n` units of credit a
//! millisecond, and a request costs `CREDIT_PER_TOKEN` units.

use vstd::prelude::*;

verus! {

/// Units of credit that one request costs.
pub const CREDIT_PER_TOKEN: u128 = 60_000;

/// The number of subjects that a set of buckets holds at most.
pub const MAX_SUBJECTS: usize = 4096;

/// Nanoseconds in a millisecond.
pub const NANOS_PER_MILLI: u128 = 1_000_000;

/// Nanoseconds in a second.
pub const NANOS_PER_SECOND: u128 = 1_000_000_000;

/// A subject that has made no attempt for this long is forgotten at the next cleanup.
pub const IDLE_EXPIRY: u128 = 120_000_000_000;

/// The time that lies at least between two cleanups.
pub const CLEANUP_INTERVAL: u128 = 60_000_000_000;

/// The number of seconds after which a subject that found no room may try again.
pub const STORAGE_RETRY: u64 = 60;

/// The smaller of two numbers.
pub open spec fn min_nat(a: nat, b: nat) -> nat {
    if a <= b {
        a
    } else {
        b
    }
}

/// The quotient of `a` and `b`, rounded up.
pub open spec fn ceil_div(a: nat, b: nat) -> nat {
    if b == 0 {
        0
    } else {
        (a + b - 1) as nat / b
    }
}

/// The time from `earlier` to `later`; none, where `later` comes first.
pub open spec fn elapsed(earlier: nat, later: nat) -> nat {
    if earlier <= later {
        (later - earlier) as nat
    } else {
        0
    }
}

/// The whole milliseconds from `earlier` to `later`.
pub open spec fn elapsed_millis(earlier: nat, later: nat) -> nat {
    elapsed(earlier, later) / (NANOS_PER_MILLI as nat)
}

/// What is known of one subject: its credit, and when that credit was last reckoned.
pub struct BucketModel {
    pub credit: nat,
    pub updated: nat,
}

/// A set of token buckets, one for each known subject.
#[verifier::ext_equal]
pub struct BucketsModel {
    pub per_minute: nat,
    pub burst: nat,
    pub entries: Map<Seq<char>, BucketModel>,
    pub last_cleanup: nat,
}

impl BucketsModel {
    /// The credit of a full bucket.
    pub open spec fn capacity(self) -> nat {
        self.burst * (CREDIT_PER_TOKEN as nat)
    }

    /// The storage is bounded, and no bucket is more than full.
    pub open spec fn valid(self) -> bool {
        &&& self.entries.dom().finite()
        &&& self.entries.len() <= MAX_SUBJECTS
        &&& forall|key: Seq<char>| #[trigger]
            self.entries.contains_key(key) ==> self.entries[key].credit <= self.capacity()
    }

    /// At `now` a cleanup is due.
    pub open spec fn cleanup_due(self, now: nat) -> bool {
        elapsed(self.last_cleanup, now) >= CLEANUP_INTERVAL
    }

    /// At `now` the subject has been idle long enough to be forgotten.
    pub open spec fn expired(self, key: Seq<char>, now: nat) -> bool {
        elapsed(self.entries[key].updated, now) >= IDLE_EXPIRY
    }

    /// The buckets after the cleanup that an attempt at `now` starts with.
    pub open spec fn swept(self, now: nat) -> BucketsModel {
        if self.cleanup_due(now) {
            BucketsModel {
                entries: self.entries.restrict(
                    self.entries.dom().filter(|key: Seq<char>| !self.expired(key, now)),
                ),
                last_cleanup: now,
                ..self
            }
        } else {
            self
        }
    }

    /// The subject is known, or there is room for one more.
    pub open spec fn has_room_for(self, key: Seq<char>) -> bool {
        self.entries.contains_key(key) || self.entries.len() < MAX_SUBJECTS
    }

    /// The credit of the subject at `now`. A subject that is not known has a full bucket.
    pub open spec fn credit_at(self, key: Seq<char>, now: nat) -> nat {
        if self.entries.contains_key(key) {
            let bucket = self.entries[key];
            min_nat(
                self.capacity(),
                bucket.credit + elapsed_millis(bucket.updated, now) * self.per_minute,
            )
        } else {
            self.capacity()
        }
    }

    /// The whole seconds after which a bucket that holds `credit` can pay for a request.
    pub open spec fn retry_seconds(self, credit: nat) -> nat {
        ceil_div((CREDIT_PER_TOKEN - credit) as nat, 1000 * self.per_minute)
    }

    /// What an attempt of the subject at `now` is answered, on buckets that were swept.
    pub open spec fn swept_verdict(self, key: Seq<char>, now: nat) -> Result<(), u64> {
        if !self.has_room_for(key) {
            Err(STORAGE_RETRY)
        } else if self.credit_at(key, now) < CREDIT_PER_TOKEN {
            Err(self.retry_seconds(self.credit_at(key, now)) as u64)
        } else {
            Ok(())
        }
    }

    /// The swept buckets after an attempt of the subject at `now`.
    pub open spec fn swept_after(self, key: Seq<char>, now: nat) -> BucketsModel {
        if !self.has_room_for(key) {
            self
        } else {
            let credit = self.credit_at(key, now);
            let left = if credit < CREDIT_PER_TOKEN {
                credit
            } else {
                (credit - CREDIT_PER_TOKEN) as nat
            };
            BucketsModel {
                entries: self.entries.insert(key, BucketModel { credit: left, updated: now }),
                ..self
            }
        }
    }

    /// What an attempt of the subject at `now` is answered: that it may pass, or the number of
    /// seconds to wait.
    pub open spec fn verdict(self, key: Seq<char>, now: nat) -> Result<(), u64> {
        self.swept(now).swept_verdict(key, now)
    }

    /// The buckets after an attempt of the subject at `now`.
    pub open spec fn after(self, key: Seq<char>, now: nat) -> BucketsModel {
        self.swept(now).swept_after(key, now)
    }

    /// The attempt can be answered. Buckets that never refill have no waiting time to give to a
    /// subject that is out of credit.
    pub open spec fn answerable(self, key: Seq<char>, now: nat) -> bool {
        ||| self.per_minute > 0
        ||| !self.swept(now).has_room_for(key)
        ||| self.swept(now).credit_at(key, now) >= CREDIT_PER_TOKEN
    }
}

} // verus!
