//! What one attempt does, in numbers: who is remembered, what it costs, how it is answered.

use vstd::prelude::*;

use super::laws;
use super::laws::Attempt;
use super::model::{BucketModel, BucketsModel};

verus! {

/// An attempt at `now` finds the subject: it is known, and it is not one that has been idle for two
/// minutes where the last cleanup lies a minute back.
pub open spec fn remembered(buckets: BucketsModel, key: Seq<char>, now: nat) -> bool {
    &&& buckets.entries.contains_key(key)
    &&& now < buckets.last_cleanup + 60_000_000_000 || now < buckets.entries[key].updated
        + 120_000_000_000
}

/// The whole milliseconds that a subject has been idle at `now`. A clock that went back counts as
/// none.
pub open spec fn idle_millis(bucket: BucketModel, now: nat) -> int {
    if bucket.updated <= now {
        (now - bucket.updated) / 1_000_000
    } else {
        0
    }
}

/// `seconds` is the least number of whole seconds after which `credit` has grown to the price of a
/// request.
pub open spec fn is_least_wait(per_minute: nat, credit: int, seconds: int) -> bool {
    &&& seconds >= 1
    &&& credit + (1000 * seconds) * per_minute >= 60_000
    &&& credit + (1000 * (seconds - 1)) * per_minute < 60_000
}

/// The attempt of one subject leaves every other as it was, but for those that it forgets; it
/// forgets exactly those that are not remembered.
pub proof fn law_attempt_leaves_others(
    buckets: BucketsModel,
    key: Seq<char>,
    other: Seq<char>,
    now: nat,
)
    requires
        key != other,
    ensures
        buckets.after(key, now).entries.contains_key(other) <==> remembered(buckets, other, now),
        remembered(buckets, other, now) ==> buckets.after(key, now).entries[other]
            == buckets.entries[other],
{
}

/// An attempt changes neither the rate nor the burst, and it cleans up once a minute.
pub proof fn law_attempt_keeps_the_rate(buckets: BucketsModel, key: Seq<char>, now: nat)
    ensures
        buckets.after(key, now).per_minute == buckets.per_minute,
        buckets.after(key, now).burst == buckets.burst,
        now >= buckets.last_cleanup + 60_000_000_000 ==> buckets.after(key, now).last_cleanup
            == now,
        now < buckets.last_cleanup + 60_000_000_000 ==> buckets.after(key, now).last_cleanup
            == buckets.last_cleanup,
{
}

/// The waiting time in numbers.
proof fn lemma_least_wait(buckets: BucketsModel, credit: nat)
    requires
        credit < 60_000,
        buckets.per_minute > 0,
    ensures
        is_least_wait(
            buckets.per_minute,
            credit as int,
            buckets.retry_seconds(credit) as u64 as int,
        ),
{
    let seconds = buckets.retry_seconds(credit);
    laws::lemma_retry_is_least(buckets, credit, seconds);
    laws::lemma_retry_is_least(buckets, credit, (seconds - 1) as nat);
}

/// A subject that is remembered gains its rate for each whole millisecond that it was idle, up to
/// the burst, whatever it held. It passes if and only if that makes a whole token, which it then
/// pays; else it keeps everything and is told the least wait.
pub proof fn law_attempt_of_remembered_subject(buckets: BucketsModel, key: Seq<char>, now: nat)
    requires
        remembered(buckets, key, now),
    ensures
        ({
            let bucket = buckets.entries[key];
            let full = 60_000 * buckets.burst;
            let offered = bucket.credit + idle_millis(bucket, now) * buckets.per_minute;
            let held = if offered <= full {
                offered
            } else {
                full as int
            };
            let after = buckets.after(key, now).entries[key];
            &&& buckets.after(key, now).entries.contains_key(key)
            &&& after.updated == now
            &&& buckets.verdict(key, now) is Ok <==> held >= 60_000
            &&& buckets.verdict(key, now) is Ok ==> after.credit == held - 60_000
            &&& buckets.verdict(key, now) is Err ==> after.credit == held
            &&& buckets.verdict(key, now) is Err && buckets.per_minute > 0 ==> is_least_wait(
                buckets.per_minute,
                held,
                buckets.verdict(key, now)->Err_0 as int,
            )
        }),
{
    let swept = buckets.swept(now);
    let credit = swept.credit_at(key, now);
    assert(swept.entries.contains_key(key));
    if credit < 60_000 && buckets.per_minute > 0 {
        lemma_least_wait(swept, credit);
    }
}

/// A subject that is not remembered finds no room where 4096 others are, and is told to wait for a
/// minute. Elsewhere it starts with a full burst.
pub proof fn law_attempt_of_new_subject(buckets: BucketsModel, key: Seq<char>, now: nat)
    requires
        !remembered(buckets, key, now),
    ensures
        ({
            let others = buckets.entries.dom().filter(
                |other: Seq<char>| remembered(buckets, other, now),
            ).len();
            let verdict = buckets.verdict(key, now);
            let after = buckets.after(key, now);
            &&& others >= 4096 ==> verdict == Err::<(), u64>(60) && !after.entries.contains_key(key)
            &&& others < 4096 ==> {
                &&& after.entries.contains_key(key)
                &&& after.entries[key].updated == now
                &&& buckets.burst >= 1 ==> verdict is Ok && after.entries[key].credit == 60_000 * (
                buckets.burst - 1)
                &&& buckets.burst == 0 ==> verdict is Err && after.entries[key].credit == 0
                &&& buckets.burst == 0 && buckets.per_minute > 0 ==> is_least_wait(
                    buckets.per_minute,
                    0,
                    verdict->Err_0 as int,
                )
            }
        }),
{
    let swept = buckets.swept(now);
    assert(swept.entries.dom() =~= buckets.entries.dom().filter(
        |other: Seq<char>| remembered(buckets, other, now),
    ));
    if buckets.burst == 0 && buckets.per_minute > 0 {
        lemma_least_wait(swept, 0);
    }
}

/// Every attempt is answered, unless the buckets never refill and the subject holds less than a
/// token.
pub proof fn law_attempts_are_answered(buckets: BucketsModel, key: Seq<char>, now: nat)
    ensures
        buckets.per_minute > 0 ==> buckets.answerable(key, now),
        buckets.verdict(key, now) is Ok ==> buckets.answerable(key, now),
{
}

/// Idle time buys tokens: a subject that holds `credit` and has been idle for `millis` whole
/// milliseconds passes exactly as often, of `count` attempts made at once, as its credit and
/// `millis` times the rate pay for, up to the burst.
pub proof fn law_idle_time_buys_tokens(
    buckets: BucketsModel,
    key: Seq<char>,
    credit: nat,
    millis: nat,
    now: nat,
    count: nat,
)
    requires
        remembered(buckets, key, now),
        buckets.entries[key].credit == credit,
        buckets.entries[key].updated + millis * 1_000_000 <= now,
        now < buckets.entries[key].updated + (millis + 1) * 1_000_000,
    ensures
        ({
            let attempts = Seq::new(count, |i: int| Attempt { key, now });
            let passed = laws::passes(buckets, attempts, key);
            let paid = credit + millis * buckets.per_minute;
            &&& passed <= count
            &&& passed <= buckets.burst
            &&& passed * 60_000 <= paid
            &&& passed < count && passed < buckets.burst ==> (passed + 1) * 60_000 > paid
        }),
{
    let bucket = buckets.entries[key];
    assert(idle_millis(bucket, now) == millis);
    laws::law_every_token_is_granted(buckets, key, now, count);
    assert(laws::at_once(key, now, count) =~= Seq::new(count, |i: int| Attempt { key, now }));
    let swept = buckets.swept(now);
    assert(swept.entries.contains_key(key));
    assert(swept.entries[key] == bucket);
    let held = swept.credit_at(key, now);
    let paid = credit + millis * buckets.per_minute;
    assert(held <= paid && held <= 60_000 * buckets.burst && (held == paid || held == 60_000
        * buckets.burst));
}

/// An early attempt that is refused never brings the next pass forward: whoever passes at `later`
/// after it would have passed then without it.
pub proof fn law_refusals_bring_nothing_forward(
    buckets: BucketsModel,
    key: Seq<char>,
    now: nat,
    later: nat,
)
    requires
        remembered(buckets, key, now),
        remembered(buckets, key, later),
        buckets.entries[key].updated <= now <= later,
        buckets.verdict(key, now) is Err,
        buckets.after(key, now).verdict(key, later) is Ok,
    ensures
        buckets.verdict(key, later) is Ok,
{
    let bucket = buckets.entries[key];
    let between = buckets.after(key, now);
    law_attempt_of_remembered_subject(buckets, key, now);
    law_attempt_of_remembered_subject(buckets, key, later);
    law_attempt_keeps_the_rate(buckets, key, now);
    let rate = buckets.per_minute;
    let first = idle_millis(bucket, now);
    let rest = idle_millis(between.entries[key], later);
    let whole = idle_millis(bucket, later);
    assert(first + rest <= whole);
    assert(first * rate + rest * rate <= whole * rate) by (nonlinear_arith)
        requires
            first + rest <= whole,
            rate >= 0,
    ;
    law_attempt_of_remembered_subject(between, key, later);
}

} // verus!
