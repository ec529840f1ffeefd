//! Token buckets, one for each subject, in bounded storage.

use vstd::hash_map::StringHashMap;
use vstd::prelude::*;

use super::model;
use super::model::{
    BucketModel, BucketsModel, CLEANUP_INTERVAL, CREDIT_PER_TOKEN, IDLE_EXPIRY, MAX_SUBJECTS,
    NANOS_PER_MILLI, STORAGE_RETRY,
};

verus! {

broadcast use vstd::hash_map::group_hash_map_axioms;

/// The credit of one subject and the time at which it was last reckoned.
#[derive(Clone, Copy)]
struct Bucket {
    credit: u128,
    updated: u128,
}

impl View for Bucket {
    type V = BucketModel;

    closed spec fn view(&self) -> BucketModel {
        BucketModel { credit: self.credit as nat, updated: self.updated as nat }
    }
}

/// Token buckets that all refill at one rate and hold one burst.
///
/// Times are nanoseconds since the buckets were made.
pub struct TokenBuckets {
    entries: StringHashMap<Bucket>,
    /// The known subjects, each once.
    subjects: Vec<String>,
    last_cleanup: u128,
    per_minute: u32,
    burst: u32,
}

impl View for TokenBuckets {
    type V = BucketsModel;

    closed spec fn view(&self) -> BucketsModel {
        BucketsModel {
            per_minute: self.per_minute as nat,
            burst: self.burst as nat,
            entries: self.entries@.map_values(|bucket: Bucket| bucket@),
            last_cleanup: self.last_cleanup as nat,
        }
    }
}

/// The texts of a list of strings.
spec fn texts(list: Seq<String>) -> Seq<Seq<char>> {
    list.map_values(|text: String| text@)
}

impl TokenBuckets {
    /// The list of subjects names each bucket once, and the storage is bounded.
    pub closed spec fn wf(self) -> bool {
        &&& self@.valid()
        &&& texts(self.subjects@).no_duplicates()
        &&& texts(self.subjects@).to_set() == self.entries@.dom()
    }

    /// Makes buckets that refill `per_minute` tokens a minute and hold at most `burst`.
    pub fn new(per_minute: u32, burst: u32) -> (buckets: Self)
        ensures
            buckets.wf(),
            buckets@ == (BucketsModel {
                per_minute: per_minute as nat,
                burst: burst as nat,
                entries: Map::empty(),
                last_cleanup: 0,
            }),
    {
        let buckets = TokenBuckets {
            entries: StringHashMap::new(),
            subjects: Vec::new(),
            last_cleanup: 0,
            per_minute,
            burst,
        };
        assert(buckets@.entries =~= Map::<Seq<char>, BucketModel>::empty());
        assert(texts(buckets.subjects@) =~= Seq::<Seq<char>>::empty());
        assert(texts(buckets.subjects@).to_set() =~= buckets.entries@.dom());
        buckets
    }

    /// Starts an attempt at `now`: where a cleanup is due, forgets the idle subjects.
    fn sweep(&mut self, now: u128)
        requires
            old(self).wf(),
        ensures
            final(self).wf(),
            final(self)@ == old(self)@.swept(now as nat),
    {
        if now.saturating_sub(self.last_cleanup) < CLEANUP_INTERVAL {
            return;
        }
        let ghost entries = self.entries@;
        let ghost names = texts(self.subjects@);
        let ghost fresh = |key: Seq<char>| !self@.expired(key, now as nat);
        let mut kept: Vec<String> = Vec::new();
        proof {
            assert(forall|key: Seq<char>|
                entries.contains_key(key) ==> names.take(names.len() as int).contains(key)) by {
                assert(names.take(names.len() as int) =~= names);
            }
        }
        while self.subjects.len() > 0
            invariant
                self.per_minute == old(self).per_minute,
                self.burst == old(self).burst,
                self.last_cleanup == old(self).last_cleanup,
                old(self).wf(),
                entries == old(self).entries@,
                names == texts(old(self).subjects@),
                names.no_duplicates(),
                names.to_set() == entries.dom(),
                forall|key: Seq<char>| #[trigger]
                    entries.contains_key(key) ==> fresh(key) == (model::elapsed(
                        entries[key].updated as nat,
                        now as nat,
                    ) < IDLE_EXPIRY),
                self.subjects@.len() <= names.len(),
                texts(self.subjects@) == names.take(self.subjects@.len() as int),
                forall|key: Seq<char>| #[trigger]
                    self.entries@.contains_key(key) <==> entries.contains_key(key) && (fresh(key)
                        || names.take(self.subjects@.len() as int).contains(key)),
                forall|key: Seq<char>| #[trigger]
                    self.entries@.contains_key(key) ==> self.entries@[key] == entries[key],
                texts(kept@).no_duplicates(),
                forall|key: Seq<char>| #[trigger]
                    texts(kept@).contains(key) <==> entries.contains_key(key) && fresh(key)
                        && !names.take(self.subjects@.len() as int).contains(key),
            decreases self.subjects@.len(),
        {
            let ghost remaining = self.subjects@.len() as int;
            let ghost kept_before = kept@;
            let ghost list_before = self.subjects@;
            match self.subjects.pop() {
                Some(subject) => {
                    let ghost name = subject@;
                    proof {
                        let longer = names.take(remaining);
                        let shorter = names.take(remaining - 1);
                        assert(texts(list_before)[remaining - 1] == name);
                        assert(names[remaining - 1] == name);
                        assert(names.contains(name));
                        assert(texts(self.subjects@) =~= shorter);
                        assert forall|key: Seq<char>| longer.contains(key) implies
                            key == name || shorter.contains(key) by {
                            let i = choose|i: int|
                                0 <= i < remaining && longer[i] == key;
                            if i < remaining - 1 {
                                assert(shorter[i] == key);
                            }
                        }
                        assert forall|key: Seq<char>| shorter.contains(key)
                            implies key != name && longer.contains(key) by {
                            let i = choose|i: int|
                                0 <= i < remaining - 1 && shorter[i] == key;
                            assert(longer[i] == key);
                            assert(names[i] != names[remaining - 1]);
                        }
                        assert(longer.contains(name)) by {
                            assert(longer[remaining - 1] == name);
                        }
                        assert(entries.contains_key(name)) by {
                            assert(names.to_set().contains(name));
                        }
                    }
                    let idle: bool = match self.entries.get(subject.as_str()) {
                        Some(bucket) => now.saturating_sub(bucket.updated) >= IDLE_EXPIRY,
                        None => true,
                    };
                    if idle {
                        self.entries.remove(subject.as_str());
                    } else {
                        kept.push(subject);
                        proof {
                            assert(texts(kept@) =~= texts(kept_before).push(name));
                            assert(!texts(kept_before).contains(name));
                            assert(forall|i: int|
                                0 <= i < kept_before.len() ==> texts(kept_before).contains(
                                    #[trigger] texts(kept_before)[i],
                                ));
                            assert forall|key: Seq<char>| #[trigger]
                                texts(kept@).contains(key) <==> texts(kept_before).contains(key)
                                    || key == name by {
                                if texts(kept_before).contains(key) {
                                    let i = choose|i: int|
                                        0 <= i < kept_before.len() && texts(kept_before)[i] == key;
                                    assert(texts(kept@)[i] == key);
                                }
                                assert(texts(kept@)[kept_before.len() as int] == name);
                            }
                        }
                    }
                },
                None => {},
            }
        }
        self.subjects = kept;
        self.last_cleanup = now;
        proof {
            assert(names.take(0) =~= Seq::<Seq<char>>::empty());
            let swept = old(self)@.swept(now as nat);
            assert(self@.entries =~= swept.entries);
            assert(texts(self.subjects@).to_set() =~= self.entries@.dom());
            vstd::set_lib::lemma_len_subset(swept.entries.dom(), old(self)@.entries.dom());
        }
    }

    /// What `bucket` holds at `now`.
    fn refill(&self, bucket: Bucket, now: u128) -> (credit: u128)
        ensures
            credit == model::min_nat(
                self@.capacity(),
                bucket@.credit + model::elapsed_millis(bucket@.updated, now as nat)
                    * self@.per_minute,
            ),
    {
        let capacity: u128 = self.burst as u128 * CREDIT_PER_TOKEN;
        let millis: u128 = now.saturating_sub(bucket.updated) / NANOS_PER_MILLI;
        match millis.checked_mul(self.per_minute as u128) {
            Some(gain) => {
                let credit: u128 = bucket.credit.saturating_add(gain);
                if credit < capacity {
                    credit
                } else {
                    capacity
                }
            },
            None => capacity,
        }
    }

    /// The whole seconds after which a bucket that holds `credit` can pay for a request.
    fn retry_after(&self, credit: u128) -> (seconds: u64)
        requires
            credit < CREDIT_PER_TOKEN,
            self@.per_minute > 0,
        ensures
            seconds == self@.retry_seconds(credit as nat),
            1 <= seconds <= 60,
    {
        let missing: u128 = CREDIT_PER_TOKEN - credit;
        let per_second: u128 = 1000 * (self.per_minute as u128);
        let seconds: u128 = (missing + per_second - 1) / per_second;
        proof {
            let m = missing as int;
            let p = per_second as int;
            assert(1 <= (m + p - 1) / p <= 60) by (nonlinear_arith)
                requires
                    1 <= m <= 60_000,
                    p >= 1000,
            ;
        }
        seconds as u64
    }

    /// Answers an attempt of the subject `key` at `now`: it may pass, or it may try again after the
    /// given number of seconds.
    pub fn check_at(&mut self, key: &str, now: u128) -> (verdict: Result<(), u64>)
        requires
            old(self).wf(),
            old(self)@.answerable(key@, now as nat),
        ensures
            final(self).wf(),
            final(self)@.valid(),
            verdict == old(self)@.verdict(key@, now as nat),
            final(self)@ == old(self)@.after(key@, now as nat),
    {
        self.sweep(now);
        let ghost swept = *self;
        assert(swept@.entries.dom() =~= swept.entries@.dom());
        let known: Option<Bucket> = match self.entries.get(key) {
            Some(bucket) => Some(*bucket),
            None => None,
        };
        // Bounded storage even if many authenticated users are active in one process.
        if self.entries.len() >= MAX_SUBJECTS && known.is_none() {
            return Err(STORAGE_RETRY);
        }
        let credit: u128 = match known {
            Some(bucket) => self.refill(bucket, now),
            None => self.burst as u128 * CREDIT_PER_TOKEN,
        };
        let left: u128 = if credit < CREDIT_PER_TOKEN {
            credit
        } else {
            credit - CREDIT_PER_TOKEN
        };
        let verdict: Result<(), u64> = if credit < CREDIT_PER_TOKEN {
            Err(self.retry_after(credit))
        } else {
            Ok(())
        };
        if known.is_none() {
            self.subjects.push(key.to_owned());
        }
        self.entries.insert(key.to_owned(), Bucket { credit: left, updated: now });
        proof {
            assert(self@.entries =~= swept@.swept_after(key@, now as nat).entries);
            if known is None {
                assert(texts(self.subjects@) =~= texts(swept.subjects@).push(key@));
                texts(swept.subjects@).lemma_push_to_set_commute(key@);
                assert(!texts(swept.subjects@).to_set().contains(key@));
                assert(forall|i: int|
                    0 <= i < swept.subjects@.len() ==> texts(swept.subjects@).to_set().contains(
                        #[trigger] texts(swept.subjects@)[i],
                    ));
            }
            assert(texts(self.subjects@).to_set() =~= self.entries@.dom());
        }
        verdict
    }

    /// The number of known subjects.
    pub fn subject_count(&self) -> (count: usize)
        ensures
            count == self@.entries.len(),
    {
        assert(self@.entries.dom() =~= self.entries@.dom());
        self.entries.len()
    }
}

/// Whatever was attempted, no more subjects are known than there is room for, and no bucket is more
/// than full.
pub proof fn law_storage_is_bounded(buckets: TokenBuckets)
    requires
        buckets.wf(),
    ensures
        buckets@.valid(),
        buckets@.entries.len() <= 4096,
        forall|key: Seq<char>| #[trigger]
            buckets@.entries.contains_key(key) ==> buckets@.entries[key].credit <= 60_000
                * buckets@.burst,
{
}

} // verus!
