//! What holds of every set of token buckets and every run of attempts.

use vstd::prelude::*;

use super::limits;
use super::limits::{IdentityReadLimits, PROCESS_SUBJECT};
use super::model;
use super::model::{
    BucketsModel, CREDIT_PER_TOKEN, IDLE_EXPIRY, MAX_SUBJECTS, NANOS_PER_MILLI,
    NANOS_PER_SECOND, STORAGE_RETRY,
};

verus! {

/// One attempt: the subject that makes it, and when.
pub struct Attempt {
    pub key: Seq<char>,
    pub now: nat,
}

/// The buckets after a run of attempts.
pub open spec fn after_all(buckets: BucketsModel, attempts: Seq<Attempt>) -> BucketsModel
    decreases attempts.len(),
{
    if attempts.len() == 0 {
        buckets
    } else {
        after_all(buckets, attempts.drop_last()).after(attempts.last().key, attempts.last().now)
    }
}

/// How many attempts of the subject `key` a run lets pass.
pub open spec fn passes(buckets: BucketsModel, attempts: Seq<Attempt>, key: Seq<char>) -> nat
    decreases attempts.len(),
{
    if attempts.len() == 0 {
        0
    } else {
        let before = after_all(buckets, attempts.drop_last());
        let last = attempts.last();
        passes(buckets, attempts.drop_last(), key) + if last.key == key && before.verdict(
            last.key,
            last.now,
        ) is Ok {
            1nat
        } else {
            0nat
        }
    }
}

/// The attempts come in the order of their times, none before `start` and none after `end`.
pub open spec fn within(attempts: Seq<Attempt>, start: nat, end: nat) -> bool {
    &&& forall|i: int| 0 <= i < attempts.len() ==> start <= (#[trigger] attempts[i]).now <= end
    &&& forall|i: int, j: int|
        0 <= i <= j < attempts.len() ==> (#[trigger] attempts[i]).now <= (
        #[trigger] attempts[j]).now
}

/// No bucket is more than full, and no more subjects are known than there is room for, after any
/// attempt.
pub proof fn law_validity_is_kept(buckets: BucketsModel, key: Seq<char>, now: nat)
    requires
        buckets.valid(),
    ensures
        buckets.swept(now).valid(),
        buckets.after(key, now).valid(),
        buckets.after(key, now).per_minute == buckets.per_minute,
        buckets.after(key, now).burst == buckets.burst,
{
    let swept = buckets.swept(now);
    assert(swept.entries.dom().subset_of(buckets.entries.dom()));
    vstd::set_lib::lemma_len_subset(swept.entries.dom(), buckets.entries.dom());
    let after = buckets.after(key, now);
    if swept.has_room_for(key) {
        assert(after.entries.dom() =~= swept.entries.dom().insert(key));
        if swept.entries.contains_key(key) {
            assert(swept.entries.dom().insert(key) =~= swept.entries.dom());
        }
    }
}

/// The same, for any run of attempts.
pub proof fn law_validity_is_kept_by_runs(buckets: BucketsModel, attempts: Seq<Attempt>)
    requires
        buckets.valid(),
    ensures
        after_all(buckets, attempts).valid(),
        after_all(buckets, attempts).per_minute == buckets.per_minute,
        after_all(buckets, attempts).burst == buckets.burst,
    decreases attempts.len(),
{
    if attempts.len() > 0 {
        law_validity_is_kept_by_runs(buckets, attempts.drop_last());
        law_validity_is_kept(
            after_all(buckets, attempts.drop_last()),
            attempts.last().key,
            attempts.last().now,
        );
    }
}

/// Whole milliseconds of two stretches of time are at most those of both together.
proof fn lemma_millis_add(a: nat, b: nat, c: nat)
    requires
        a <= b <= c,
    ensures
        model::elapsed_millis(a, b) + model::elapsed_millis(b, c) <= model::elapsed_millis(a, c),
        (b - a) % (NANOS_PER_MILLI as int) == 0 ==> model::elapsed_millis(a, b)
            + model::elapsed_millis(b, c) == model::elapsed_millis(a, c),
{
}

/// To forget an idle subject changes no credit: by then its bucket would be full again. This holds
/// of every burst that two minutes refill, so of every burst up to the rate.
pub proof fn law_cleanup_changes_no_credit(
    buckets: BucketsModel,
    key: Seq<char>,
    now: nat,
    later: nat,
)
    requires
        buckets.burst <= 2 * buckets.per_minute,
        now <= later,
    ensures
        buckets.swept(now).credit_at(key, later) == buckets.credit_at(key, later),
{
    if buckets.cleanup_due(now) && buckets.entries.contains_key(key) && buckets.expired(key, now) {
        let bucket = buckets.entries[key];
        let millis = model::elapsed_millis(bucket.updated, later);
        assert(millis >= 120_000);
        assert(millis * buckets.per_minute >= 120_000 * buckets.per_minute) by (nonlinear_arith)
            requires
                millis >= 120_000,
        ;
    }
}

/// An attempt of one subject changes the credit of no other.
pub proof fn law_subjects_are_independent(
    buckets: BucketsModel,
    key: Seq<char>,
    other: Seq<char>,
    now: nat,
    later: nat,
)
    requires
        buckets.burst <= 2 * buckets.per_minute,
        key != other,
        now <= later,
    ensures
        buckets.after(key, now).credit_at(other, later) == buckets.credit_at(other, later),
{
    law_cleanup_changes_no_credit(buckets, other, now, later);
}

/// The attempts that the subject `key` makes in a run.
pub open spec fn own(attempts: Seq<Attempt>, key: Seq<char>) -> Seq<Attempt> {
    attempts.filter(|attempt: Attempt| attempt.key == key)
}

/// The subjects that are known and those that attempt all lie in `subjects`, `key` does too, and
/// there is room for them all.
pub open spec fn all_find_room(
    buckets: BucketsModel,
    attempts: Seq<Attempt>,
    key: Seq<char>,
    subjects: Set<Seq<char>>,
) -> bool {
    &&& subjects.finite()
    &&& subjects.len() <= MAX_SUBJECTS
    &&& subjects.contains(key)
    &&& buckets.entries.dom().subset_of(subjects)
    &&& forall|i: int| 0 <= i < attempts.len() ==> subjects.contains((#[trigger] attempts[i]).key)
}

/// Where all subjects find room, a run keeps it so, and the rate and the burst stay.
proof fn lemma_room_is_kept(
    buckets: BucketsModel,
    attempts: Seq<Attempt>,
    key: Seq<char>,
    subjects: Set<Seq<char>>,
    now: nat,
)
    requires
        all_find_room(buckets, attempts, key, subjects),
    ensures
        ({
            let after = after_all(buckets, attempts);
            &&& after.entries.dom().subset_of(subjects)
            &&& after.per_minute == buckets.per_minute
            &&& after.burst == buckets.burst
            &&& after.swept(now).has_room_for(key)
        }),
    decreases attempts.len(),
{
    let after = after_all(buckets, attempts);
    if attempts.len() > 0 {
        let init = attempts.drop_last();
        let last = attempts.last();
        assert(last == attempts[attempts.len() - 1]);
        assert forall|i: int| 0 <= i < init.len() implies subjects.contains(
            (#[trigger] init[i]).key,
        ) by {
            assert(init[i] == attempts[i]);
        }
        lemma_room_is_kept(buckets, init, key, subjects, last.now);
        assert(after.entries.dom().subset_of(subjects));
    }
    let swept = after.swept(now);
    if !swept.entries.contains_key(key) {
        assert(swept.entries.dom().subset_of(subjects.remove(key)));
        vstd::set_lib::lemma_len_subset(swept.entries.dom(), subjects.remove(key));
    }
}

/// What a run leaves to a subject and lets it pass is what its own attempts alone do.
proof fn lemma_own_attempts_decide(
    buckets: BucketsModel,
    attempts: Seq<Attempt>,
    key: Seq<char>,
    subjects: Set<Seq<char>>,
    later: nat,
)
    requires
        buckets.burst <= 2 * buckets.per_minute,
        all_find_room(buckets, attempts, key, subjects),
        within(attempts, 0, later),
    ensures
        all_find_room(buckets, own(attempts, key), key, subjects),
        after_all(buckets, attempts).credit_at(key, later) == after_all(
            buckets,
            own(attempts, key),
        ).credit_at(key, later),
        passes(buckets, attempts, key) == passes(buckets, own(attempts, key), key),
    decreases attempts.len(),
{
    reveal(Seq::filter);
    if attempts.len() > 0 {
        let init = attempts.drop_last();
        let last = attempts.last();
        let mine = own(init, key);
        assert(last == attempts[attempts.len() - 1]);
        assert forall|i: int| 0 <= i < init.len() implies (#[trigger] init[i]).now <= last.now
            && subjects.contains(init[i].key) by {
            assert(init[i] == attempts[i]);
        }
        assert(within(init, 0, last.now));
        assert(within(init, 0, later));
        let before = after_all(buckets, init);
        let before_own = after_all(buckets, mine);
        lemma_own_attempts_decide(buckets, init, key, subjects, last.now);
        lemma_room_is_kept(buckets, init, key, subjects, last.now);
        lemma_room_is_kept(buckets, mine, key, subjects, last.now);
        if last.key == key {
            assert(own(attempts, key) == mine.push(last));
            assert(mine.push(last).drop_last() =~= mine);
            law_cleanup_changes_no_credit(before, key, last.now, last.now);
            law_cleanup_changes_no_credit(before_own, key, last.now, last.now);
        } else {
            assert(own(attempts, key) == mine);
            lemma_own_attempts_decide(buckets, init, key, subjects, later);
            law_subjects_are_independent(before, last.key, key, last.now, later);
        }
    }
}

/// As long as there is room for all subjects, what others attempt changes no answer that a subject
/// gets: after any run it is answered, and was let pass, as if it had made its own attempts alone.
pub proof fn law_others_change_no_answer(
    buckets: BucketsModel,
    attempts: Seq<Attempt>,
    key: Seq<char>,
    subjects: Set<Seq<char>>,
    later: nat,
)
    requires
        buckets.burst <= 2 * buckets.per_minute,
        all_find_room(buckets, attempts, key, subjects),
        within(attempts, 0, later),
    ensures
        after_all(buckets, attempts).verdict(key, later) == after_all(
            buckets,
            own(attempts, key),
        ).verdict(key, later),
        passes(buckets, attempts, key) == passes(buckets, own(attempts, key), key),
{
    let mine = own(attempts, key);
    lemma_own_attempts_decide(buckets, attempts, key, subjects, later);
    lemma_room_is_kept(buckets, attempts, key, subjects, later);
    lemma_room_is_kept(buckets, mine, key, subjects, later);
    law_cleanup_changes_no_credit(after_all(buckets, attempts), key, later, later);
    law_cleanup_changes_no_credit(after_all(buckets, mine), key, later, later);
}

/// The budget of a subject, with what is left of it at `end`.
proof fn lemma_budget(
    buckets: BucketsModel,
    attempts: Seq<Attempt>,
    key: Seq<char>,
    start: nat,
    end: nat,
)
    requires
        buckets.valid(),
        buckets.burst <= 2 * buckets.per_minute,
        start <= end,
        within(attempts, start, end),
    ensures
        CREDIT_PER_TOKEN * passes(buckets, attempts, key) + after_all(buckets, attempts).credit_at(
            key,
            end,
        ) <= buckets.capacity() + model::elapsed_millis(start, end) * buckets.per_minute,
    decreases attempts.len(),
{
    let rate = buckets.per_minute;
    if attempts.len() > 0 {
        let init = attempts.drop_last();
        let last = attempts.last();
        let before = after_all(buckets, init);
        let after = after_all(buckets, attempts);
        assert(last == attempts[attempts.len() - 1]);
        assert(within(init, start, end)) by {
            assert forall|i: int| 0 <= i < init.len() implies start <= (#[trigger] init[i]).now
                <= end by {
                assert(init[i] == attempts[i]);
            }
        }
        assert(within(init, start, last.now)) by {
            assert forall|i: int| 0 <= i < init.len() implies start <= (#[trigger] init[i]).now
                <= last.now by {
                assert(init[i] == attempts[i]);
            }
        }
        law_validity_is_kept_by_runs(buckets, init);
        if last.key == key && before.swept(last.now).has_room_for(key) {
            lemma_budget(buckets, init, key, start, last.now);
            law_cleanup_changes_no_credit(before, key, last.now, last.now);
            lemma_millis_add(start, last.now, end);
            let first = model::elapsed_millis(start, last.now);
            let rest = model::elapsed_millis(last.now, end);
            let whole = model::elapsed_millis(start, end);
            assert(first * rate + rest * rate <= whole * rate) by (nonlinear_arith)
                requires
                    first + rest <= whole,
            ;
            assert(after.entries[key].updated == last.now);
        } else {
            lemma_budget(buckets, init, key, start, end);
            if last.key == key {
                law_cleanup_changes_no_credit(before, key, last.now, end);
            } else {
                law_subjects_are_independent(before, last.key, key, last.now, end);
            }
        }
    } else {
        assert(model::elapsed_millis(start, end) * rate >= 0) by (nonlinear_arith);
    }
}

/// In any stretch of time a subject is let pass no more often than its burst and what the rate
/// refills in that time pay for, whatever it and the others attempt.
pub proof fn law_rate_is_bounded(
    buckets: BucketsModel,
    attempts: Seq<Attempt>,
    key: Seq<char>,
    start: nat,
    end: nat,
)
    requires
        buckets.valid(),
        buckets.burst <= 2 * buckets.per_minute,
        start <= end,
        within(attempts, start, end),
    ensures
        CREDIT_PER_TOKEN * passes(buckets, attempts, key) <= CREDIT_PER_TOKEN * buckets.burst
            + model::elapsed_millis(start, end) * buckets.per_minute,
{
    lemma_budget(buckets, attempts, key, start, end);
}

/// Once a subject has passed at an instant, its credit and what it was granted make up a full bucket
/// at most.
proof fn lemma_instant(buckets: BucketsModel, attempts: Seq<Attempt>, key: Seq<char>, now: nat)
    requires
        forall|i: int| 0 <= i < attempts.len() ==> (#[trigger] attempts[i]).now == now,
    ensures
        ({
            let after = after_all(buckets, attempts);
            let passed = passes(buckets, attempts, key);
            &&& after.capacity() == buckets.capacity()
            &&& attempts.len() > 0 ==> !after.cleanup_due(now)
            &&& passed > 0 ==> {
                &&& after.entries.contains_key(key)
                &&& after.entries[key].updated == now
                &&& CREDIT_PER_TOKEN * passed + after.entries[key].credit <= buckets.capacity()
            }
        }),
    decreases attempts.len(),
{
    if attempts.len() > 0 {
        let init = attempts.drop_last();
        let last = attempts.last();
        assert(last == attempts[attempts.len() - 1]);
        assert forall|i: int| 0 <= i < init.len() implies (#[trigger] init[i]).now == now by {
            assert(init[i] == attempts[i]);
        }
        lemma_instant(buckets, init, key, now);
        let before = after_all(buckets, init);
        assert(model::elapsed_millis(now, now) == 0);
        assert(model::elapsed_millis(now, now) * before.per_minute == 0);
    }
}

/// Of attempts that all come at one instant, no subject is let pass more often than the burst.
pub proof fn law_burst_is_never_exceeded(
    buckets: BucketsModel,
    attempts: Seq<Attempt>,
    key: Seq<char>,
    now: nat,
)
    requires
        forall|i: int| 0 <= i < attempts.len() ==> (#[trigger] attempts[i]).now == now,
    ensures
        passes(buckets, attempts, key) <= buckets.burst,
{
    lemma_instant(buckets, attempts, key, now);
}

/// A run of attempts that the subject `key` alone makes at one instant.
pub open spec fn at_once(key: Seq<char>, now: nat, count: nat) -> Seq<Attempt> {
    Seq::new(count, |i: int| Attempt { key, now })
}

/// A subject that attempts `count` times at one instant passes exactly as often as it has whole
/// tokens.
pub proof fn law_every_token_is_granted(
    buckets: BucketsModel,
    key: Seq<char>,
    now: nat,
    count: nat,
)
    requires
        buckets.swept(now).has_room_for(key),
    ensures
        passes(buckets, at_once(key, now, count), key) == model::min_nat(
            count,
            buckets.swept(now).credit_at(key, now) / (CREDIT_PER_TOKEN as nat),
        ),
{
    lemma_at_once(buckets, key, now, count);
}

/// What a run of attempts at one instant grants, and what it leaves.
proof fn lemma_at_once(buckets: BucketsModel, key: Seq<char>, now: nat, count: nat)
    requires
        buckets.swept(now).has_room_for(key),
    ensures
        ({
            let credit = buckets.swept(now).credit_at(key, now);
            let run = at_once(key, now, count);
            let passed = passes(buckets, run, key);
            let after = after_all(buckets, run);
            &&& passed == model::min_nat(count, credit / (CREDIT_PER_TOKEN as nat))
            &&& after.swept(now).has_room_for(key)
            &&& after.swept(now).credit_at(key, now) == credit - CREDIT_PER_TOKEN * passed
            &&& count > 0 ==> !after.cleanup_due(now)
            &&& after.capacity() == buckets.capacity()
        }),
    decreases count,
{
    let run = at_once(key, now, count);
    if count > 0 {
        let less = (count - 1) as nat;
        lemma_at_once(buckets, key, now, less);
        assert(run.drop_last() =~= at_once(key, now, less));
        let before = after_all(buckets, run.drop_last());
        let after = after_all(buckets, run);
        assert(!after.cleanup_due(now));
        assert(after.entries.contains_key(key));
        assert(after.entries[key].updated == now);
        assert(model::elapsed_millis(now, now) * after.per_minute == 0) by {
            assert(model::elapsed_millis(now, now) == 0);
        }
    }
}

/// A subject that is not known passes exactly `burst` times at once.
pub proof fn law_new_subject_gets_the_burst(
    buckets: BucketsModel,
    key: Seq<char>,
    now: nat,
    count: nat,
)
    requires
        !buckets.entries.contains_key(key),
        buckets.swept(now).has_room_for(key),
    ensures
        passes(buckets, at_once(key, now, count), key) == model::min_nat(count, buckets.burst),
{
    law_every_token_is_granted(buckets, key, now, count);
    assert(buckets.capacity() / (CREDIT_PER_TOKEN as nat) == buckets.burst) by (nonlinear_arith)
        requires
            buckets.capacity() == buckets.burst * 60_000,
    ;
}

/// The waiting time is the least number of whole seconds that bring the missing credit.
pub(crate) proof fn lemma_retry_is_least(buckets: BucketsModel, credit: nat, wait: nat)
    requires
        credit < CREDIT_PER_TOKEN,
        buckets.per_minute > 0,
    ensures
        ({
            let seconds = buckets.retry_seconds(credit);
            let then = credit + (1000 * wait) * buckets.per_minute;
            &&& 1 <= seconds <= 60
            &&& wait >= seconds ==> then >= CREDIT_PER_TOKEN
            &&& wait < seconds ==> {
                &&& then < CREDIT_PER_TOKEN
                &&& buckets.retry_seconds(then) == seconds - wait
            }
        }),
{
    let m = (CREDIT_PER_TOKEN - credit) as int;
    let r = buckets.per_minute as int;
    let p = 1000 * r;
    let s = (m + p - 1) / p;
    let w = wait as int;
    assert(s * p >= m && (s - 1) * p < m && 1 <= s <= 60) by (nonlinear_arith)
        requires
            s == (m + p - 1) / p,
            1 <= m <= 60_000,
            p >= 1000,
    ;
    assert((1000 * w) * r == w * p) by (nonlinear_arith)
        requires
            p == 1000 * r,
    ;
    if w >= s {
        assert(w * p >= s * p) by (nonlinear_arith)
            requires
                w >= s,
                p >= 1000,
        ;
    } else {
        assert(w * p <= (s - 1) * p) by (nonlinear_arith)
            requires
                w <= s - 1,
                p >= 1000,
        ;
        assert((m - w * p + p - 1) / p == s - w) by (nonlinear_arith)
            requires
                s == (m + p - 1) / p,
                p >= 1000,
        ;
    }
}

/// A refusal gives a waiting time of one to sixty seconds.
pub proof fn law_waiting_time_is_bounded(buckets: BucketsModel, key: Seq<char>, now: nat)
    requires
        buckets.per_minute > 0,
    ensures
        buckets.verdict(key, now) matches Err(seconds) ==> 1 <= seconds <= 60,
{
    let credit = buckets.swept(now).credit_at(key, now);
    if credit < CREDIT_PER_TOKEN {
        lemma_retry_is_least(buckets.swept(now), credit, 0);
    }
}

/// Attempts of others leave the bucket of a subject as it is until it has been idle long enough to
/// be forgotten.
proof fn lemma_kept_among_others(
    buckets: BucketsModel,
    attempts: Seq<Attempt>,
    key: Seq<char>,
    later: nat,
)
    requires
        buckets.entries.contains_key(key),
        later < buckets.entries[key].updated + IDLE_EXPIRY,
        forall|i: int|
            0 <= i < attempts.len() ==> (#[trigger] attempts[i]).key != key && attempts[i].now
                <= later,
    ensures
        ({
            let after = after_all(buckets, attempts);
            &&& after.entries.contains_key(key)
            &&& after.entries[key] == buckets.entries[key]
            &&& after.per_minute == buckets.per_minute
            &&& after.burst == buckets.burst
        }),
    decreases attempts.len(),
{
    if attempts.len() > 0 {
        let init = attempts.drop_last();
        assert(attempts.last() == attempts[attempts.len() - 1]);
        assert forall|i: int| 0 <= i < init.len() implies (#[trigger] init[i]).key != key
            && init[i].now <= later by {
            assert(init[i] == attempts[i]);
        }
        lemma_kept_among_others(buckets, init, key, later);
    }
}

/// A subject that was refused for want of credit passes once it has waited for as many seconds as
/// it was told, whatever the others attempt meanwhile.
pub proof fn law_waiting_suffices(
    buckets: BucketsModel,
    key: Seq<char>,
    now: nat,
    others: Seq<Attempt>,
    later: nat,
)
    requires
        buckets.burst > 0,
        buckets.per_minute > 0,
        buckets.swept(now).has_room_for(key),
        buckets.verdict(key, now) is Err,
        now + buckets.verdict(key, now)->Err_0 * NANOS_PER_SECOND <= later < now + IDLE_EXPIRY,
        forall|i: int|
            0 <= i < others.len() ==> (#[trigger] others[i]).key != key && others[i].now <= later,
    ensures
        after_all(buckets.after(key, now), others).verdict(key, later) is Ok,
{
    let swept = buckets.swept(now);
    let credit = swept.credit_at(key, now);
    let refused = buckets.after(key, now);
    let then = after_all(refused, others);
    lemma_kept_among_others(refused, others, key, later);
    lemma_retry_is_least(swept, credit, swept.retry_seconds(credit));
    let seconds = swept.retry_seconds(credit);
    let millis = model::elapsed_millis(now, later);
    assert(millis >= 1000 * seconds);
    assert(millis * swept.per_minute >= (1000 * seconds) * swept.per_minute) by (nonlinear_arith)
        requires
            millis >= 1000 * seconds,
    ;
    assert(then.swept(later).entries[key] == refused.entries[key]);
}

/// The same without a limit on the time, where no one else attempts meanwhile.
pub proof fn law_waiting_suffices_at_any_time(
    buckets: BucketsModel,
    key: Seq<char>,
    now: nat,
    later: nat,
)
    requires
        buckets.valid(),
        buckets.burst > 0,
        buckets.per_minute > 0,
        buckets.swept(now).has_room_for(key),
        buckets.verdict(key, now) is Err,
        now + buckets.verdict(key, now)->Err_0 * NANOS_PER_SECOND <= later,
    ensures
        buckets.after(key, now).verdict(key, later) is Ok,
{
    let refused = buckets.after(key, now);
    if later < now + IDLE_EXPIRY {
        law_waiting_suffices(buckets, key, now, Seq::empty(), later);
    } else {
        law_validity_is_kept(buckets, key, now);
        let swept = refused.swept(later);
        let credit = refused.entries[key].credit;
        let seconds = buckets.swept(now).retry_seconds(credit);
        lemma_retry_is_least(buckets.swept(now), credit, seconds);
        let millis = model::elapsed_millis(now, later);
        assert(millis >= 1000 * seconds);
        assert(millis * buckets.per_minute >= (1000 * seconds) * buckets.per_minute)
            by (nonlinear_arith)
            requires
                millis >= 1000 * seconds,
        ;
        if refused.cleanup_due(later) {
            assert(swept.entries.dom().subset_of(refused.entries.dom().remove(key)));
            vstd::set_lib::lemma_len_subset(swept.entries.dom(), refused.entries.dom().remove(key));
        }
    }
}

/// A subject that was refused for want of credit and tries again too early, after `wait` whole
/// seconds, is told to wait for exactly the seconds that are left.
pub proof fn law_waiting_is_necessary(
    buckets: BucketsModel,
    key: Seq<char>,
    now: nat,
    wait: nat,
)
    requires
        buckets.burst > 0,
        buckets.per_minute > 0,
        buckets.swept(now).has_room_for(key),
        buckets.verdict(key, now) is Err,
        wait < buckets.verdict(key, now)->Err_0,
    ensures
        buckets.after(key, now).verdict(key, now + wait * (NANOS_PER_SECOND as nat)) == Err::<
            (),
            u64,
        >((buckets.verdict(key, now)->Err_0 - wait) as u64),
{
    let swept = buckets.swept(now);
    let credit = swept.credit_at(key, now);
    let refused = buckets.after(key, now);
    let later = now + wait * (NANOS_PER_SECOND as nat);
    lemma_retry_is_least(swept, credit, wait);
    lemma_kept_among_others(refused, Seq::empty(), key, later);
    assert(model::elapsed_millis(now, later) == 1000 * wait);
    assert(refused.swept(later).entries[key] == refused.entries[key]);
}

/// A refused attempt costs no credit, provided that whole milliseconds have passed since the
/// subject's last attempt: a refusal drops the fraction of a millisecond that has not been
/// credited yet.
pub proof fn law_refusal_costs_no_credit(
    buckets: BucketsModel,
    key: Seq<char>,
    now: nat,
    later: nat,
)
    requires
        buckets.burst <= 2 * buckets.per_minute,
        buckets.verdict(key, now) is Err,
        buckets.entries.contains_key(key) ==> buckets.entries[key].updated <= now && (now
            - buckets.entries[key].updated) % (NANOS_PER_MILLI as int) == 0,
        now <= later,
    ensures
        buckets.after(key, now).credit_at(key, later) == buckets.credit_at(key, later),
{
    let swept = buckets.swept(now);
    law_cleanup_changes_no_credit(buckets, key, now, later);
    if swept.has_room_for(key) && swept.entries.contains_key(key) {
        let rate = buckets.per_minute;
        let updated = swept.entries[key].updated;
        lemma_millis_add(updated, now, later);
        let first = model::elapsed_millis(updated, now);
        let rest = model::elapsed_millis(now, later);
        assert((first + rest) * rate == first * rate + rest * rate) by (nonlinear_arith);
    } else if swept.has_room_for(key) {
        assert(model::elapsed_millis(now, later) * buckets.per_minute >= 0) by (nonlinear_arith);
    }
}

/// A refused attempt, repeated at once, gets the same answer and changes nothing more.
pub proof fn law_refusal_repeats(buckets: BucketsModel, key: Seq<char>, now: nat)
    requires
        buckets.verdict(key, now) is Err,
    ensures
        buckets.after(key, now).verdict(key, now) == buckets.verdict(key, now),
        buckets.after(key, now).after(key, now) == buckets.after(key, now),
{
    let swept = buckets.swept(now);
    let after = buckets.after(key, now);
    assert(!after.cleanup_due(now));
    assert(after.swept(now) == after);
    if swept.has_room_for(key) {
        assert(model::elapsed_millis(now, now) * buckets.per_minute == 0) by {
            assert(model::elapsed_millis(now, now) == 0);
        }
        assert(after.after(key, now).entries =~= after.entries);
    }
}

/// A known subject is never refused for want of room: the refusal for want of room comes exactly
/// where the storage is full, after the cleanup, and the subject is not in it.
pub proof fn law_only_new_subjects_find_no_room(
    buckets: BucketsModel,
    key: Seq<char>,
    now: nat,
)
    requires
        buckets.valid(),
    ensures
        !buckets.swept(now).has_room_for(key) <==> buckets.swept(now).entries.len() == MAX_SUBJECTS
            && !buckets.swept(now).entries.contains_key(key),
        !buckets.swept(now).has_room_for(key) ==> buckets.verdict(key, now) == Err::<(), u64>(
            STORAGE_RETRY,
        ) && buckets.after(key, now) == buckets.swept(now),
{
    law_validity_is_kept(buckets, key, now);
}

/// A subject that found no room finds some after the sixty seconds that it was told to wait, if by
/// then any known subject has been idle for two minutes.
pub proof fn law_idle_subjects_make_room(
    buckets: BucketsModel,
    key: Seq<char>,
    idle: Seq<char>,
    now: nat,
    later: nat,
)
    requires
        buckets.valid(),
        buckets.last_cleanup <= now,
        !buckets.swept(now).has_room_for(key),
        now + STORAGE_RETRY * NANOS_PER_SECOND <= later,
        buckets.after(key, now).entries.contains_key(idle),
        buckets.after(key, now).expired(idle, later),
    ensures
        buckets.after(key, now).swept(later).has_room_for(key),
        buckets.burst > 0 ==> buckets.after(key, now).verdict(key, later) is Ok,
{
    law_validity_is_kept(buckets, key, now);
    let refused = buckets.after(key, now);
    let swept = refused.swept(later);
    assert(refused.cleanup_due(later));
    assert(swept.entries.dom().subset_of(refused.entries.dom().remove(idle)));
    vstd::set_lib::lemma_len_subset(swept.entries.dom(), refused.entries.dom().remove(idle));
    assert(!swept.entries.contains_key(key));
}

/// A cleanup forgets exactly the subjects that have been idle for two minutes.
pub proof fn law_cleanup_forgets_the_idle(buckets: BucketsModel, key: Seq<char>, now: nat)
    requires
        buckets.cleanup_due(now),
    ensures
        buckets.swept(now).entries.contains_key(key) <==> buckets.entries.contains_key(key)
            && !buckets.expired(key, now),
        buckets.swept(now).entries.contains_key(key) ==> buckets.swept(now).entries[key]
            == buckets.entries[key],
{
}

/// In any stretch of time the inner gate lets a user pass no more often than the user's burst and
/// rate pay for, and the outer gate lets all users together pass no more often than the burst and
/// rate of the process do.
pub proof fn law_reads_are_bounded(
    limits: IdentityReadLimits,
    user: Seq<char>,
    user_attempts: Seq<Attempt>,
    process_attempts: Seq<Attempt>,
    start: nat,
    end: nat,
)
    requires
        limits.wf(),
        start <= end,
        within(user_attempts, start, end),
        within(process_attempts, start, end),
    ensures
        CREDIT_PER_TOKEN * passes(limits.users(), user_attempts, user) <= CREDIT_PER_TOKEN
            * limits.users().burst + model::elapsed_millis(start, end) * limits.users().per_minute,
        CREDIT_PER_TOKEN * passes(limits.aggregate(), process_attempts, PROCESS_SUBJECT@)
            <= CREDIT_PER_TOKEN * limits.aggregate().burst + model::elapsed_millis(start, end)
            * limits.aggregate().per_minute,
{
    limits::law_limits_stay_bounded(limits, start);
    law_rate_is_bounded(limits.users(), user_attempts, user, start, end);
    law_rate_is_bounded(limits.aggregate(), process_attempts, PROCESS_SUBJECT@, start, end);
}

} // verus!
