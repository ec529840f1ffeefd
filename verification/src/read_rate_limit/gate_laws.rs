//! What holds of the gates over any number of calls.

use vstd::prelude::*;

use super::attempt_laws;
use super::laws;
use super::laws::Attempt;
use super::limits;
use super::limits::{IdentityReadLimits, ReadDecision};
use super::model::BucketsModel;
use crate::digest;
use crate::text;

verus! {

/// A read that arrives: the limits as it finds and leaves them, the subject whose budget is charged,
/// the time, and the decision.
pub struct GateCall {
    pub before: IdentityReadLimits,
    pub after: IdentityReadLimits,
    pub subject: Seq<char>,
    pub now: nat,
    pub decision: ReadDecision,
}

/// The calls are calls of the outer gate, each on the limits that the one before it left.
pub open spec fn outer_run(calls: Seq<GateCall>) -> bool {
    &&& forall|i: int|
        0 <= i < calls.len() ==> limits::outer_gate(
            (#[trigger] calls[i]).before,
            calls[i].after,
            calls[i].now,
            calls[i].decision,
        ) && calls[i].subject == "process"@
    &&& forall|i: int, j: int|
        0 <= i && j == i + 1 && j < calls.len() ==> (#[trigger] calls[i]).after.aggregate() == (
        #[trigger] calls[j]).before.aggregate()
}

/// The calls are calls of the inner gate for authenticated users, each on the limits that the one
/// before it left.
pub open spec fn inner_run(calls: Seq<GateCall>) -> bool {
    &&& forall|i: int|
        0 <= i < calls.len() ==> limits::inner_gate(
            (#[trigger] calls[i]).before,
            calls[i].after,
            calls[i].subject,
            calls[i].now,
            calls[i].decision,
        )
    &&& forall|i: int, j: int|
        0 <= i && j == i + 1 && j < calls.len() ==> (#[trigger] calls[i]).after.users() == (
        #[trigger] calls[j]).before.users()
}

/// How many reads of the subject go on.
pub open spec fn forwarded(calls: Seq<GateCall>, subject: Seq<char>) -> nat
    decreases calls.len(),
{
    if calls.len() == 0 {
        0
    } else {
        forwarded(calls.drop_last(), subject) + if calls.last().subject == subject
            && calls.last().decision is Forward {
            1nat
        } else {
            0nat
        }
    }
}

/// The calls come in the order of their times, none before `start` and none after `end`.
pub open spec fn calls_within(calls: Seq<GateCall>, start: nat, end: nat) -> bool {
    &&& forall|i: int| 0 <= i < calls.len() ==> start <= (#[trigger] calls[i]).now <= end
    &&& forall|i: int, j: int|
        0 <= i <= j < calls.len() ==> (#[trigger] calls[i]).now <= (#[trigger] calls[j]).now
}

/// A gate lets a read go on if and only if the budget lets it pass, and else refuses it with status
/// 429 and the waiting time that the budget gives, under a key that the salt and the subject alone
/// decide. It never takes a user for unknown.
pub proof fn law_gates_follow_their_budget(
    decision: ReadDecision,
    verdict: Result<(), u64>,
    class: Seq<char>,
    salt: Seq<u8>,
    subject: Seq<char>,
)
    requires
        limits::gate_decides(decision, verdict, class, salt, subject),
    ensures
        decision is Forward <==> verdict is Ok,
        decision is Limited <==> verdict is Err,
        decision !is Unauthorized,
        decision matches ReadDecision::Limited(refused) ==> {
            &&& refused.response.status == 429
            &&& text::decimal_value(refused.response.retry_after@) == verdict->Err_0
            &&& refused.response.retry_after@ == text::decimal(verdict->Err_0 as nat)
            &&& refused.record.limiter_class@ == class
            &&& refused.record.retry_after == verdict->Err_0
            &&& refused.record.subject_key@ == digest::hex(
                digest::sha256(salt + vstd::utf8::encode_utf8(subject)),
            ).take(16)
        },
{
    if verdict is Err {
        text::law_decimal_reads_back(verdict->Err_0 as nat);
    }
}

/// The attempts that calls of a gate make.
spec fn attempts_of(calls: Seq<GateCall>) -> Seq<Attempt> {
    calls.map_values(|call: GateCall| Attempt { key: call.subject, now: call.now })
}

/// The calls charge one budget, each with the outcome that the budget gives.
spec fn charges(calls: Seq<GateCall>, states: Seq<BucketsModel>) -> bool {
    &&& states.len() == calls.len() + 1
    &&& forall|i: int, j: int|
        0 <= i < calls.len() && j == i + 1 ==> (#[trigger] states[j]) == states[i].after(
            (#[trigger] calls[i]).subject,
            calls[i].now,
        )
    &&& forall|i: int|
        0 <= i < calls.len() ==> ((#[trigger] calls[i]).decision is Forward <==> states[i].verdict(
            calls[i].subject,
            calls[i].now,
        ) is Ok)
}

/// What a gate forwards is what its budget lets pass.
proof fn lemma_forwarded(
    calls: Seq<GateCall>,
    states: Seq<BucketsModel>,
    subject: Seq<char>,
)
    requires
        charges(calls, states),
    ensures
        forwarded(calls, subject) == laws::passes(states[0], attempts_of(calls), subject),
        laws::after_all(states[0], attempts_of(calls)) == states[calls.len() as int],
    decreases calls.len(),
{
    if calls.len() > 0 {
        let init = calls.drop_last();
        let last = calls.len() - 1;
        let shorter = states.drop_last();
        assert forall|i: int, j: int| 0 <= i < init.len() && j == i + 1 implies (
        #[trigger] shorter[j]) == shorter[i].after((#[trigger] init[i]).subject, init[i].now) by {
            assert(init[i] == calls[i]);
            assert(shorter[j] == states[j]);
        }
        assert forall|i: int| 0 <= i < init.len() implies ((#[trigger] init[i]).decision is Forward
            <==> shorter[i].verdict(init[i].subject, init[i].now) is Ok) by {
            assert(init[i] == calls[i]);
        }
        lemma_forwarded(init, shorter, subject);
        assert(attempts_of(calls).drop_last() =~= attempts_of(init));
        assert(attempts_of(calls).last() == (Attempt {
            key: calls[last].subject,
            now: calls[last].now,
        }));
        assert(states[last + 1] == states[last].after(calls[last].subject, calls[last].now));
        assert(shorter[last] == states[last]);
        assert(shorter[0] == states[0]);
    }
}

/// The states of the process budget along a run of the outer gate.
spec fn outer_states(calls: Seq<GateCall>) -> Seq<BucketsModel> {
    calls.map_values(|call: GateCall| call.before.aggregate()).push(calls.last().after.aggregate())
}

/// The states of the users' budgets along a run of the inner gate.
spec fn inner_states(calls: Seq<GateCall>) -> Seq<BucketsModel> {
    calls.map_values(|call: GateCall| call.before.users()).push(calls.last().after.users())
}

proof fn lemma_outer_run_charges(calls: Seq<GateCall>)
    requires
        outer_run(calls),
        calls.len() > 0,
    ensures
        charges(calls, outer_states(calls)),
        outer_states(calls)[0] == calls[0].before.aggregate(),
{
    let states = outer_states(calls);
    assert forall|i: int, j: int| 0 <= i < calls.len() && j == i + 1 implies (#[trigger] states[j])
        == states[i].after((#[trigger] calls[i]).subject, calls[i].now) by {
        if j < calls.len() {
            assert(calls[i].after.aggregate() == calls[j].before.aggregate());
        }
    }
}

proof fn lemma_inner_run_charges(calls: Seq<GateCall>)
    requires
        inner_run(calls),
        calls.len() > 0,
    ensures
        charges(calls, inner_states(calls)),
        inner_states(calls)[0] == calls[0].before.users(),
{
    let states = inner_states(calls);
    assert forall|i: int, j: int| 0 <= i < calls.len() && j == i + 1 implies (#[trigger] states[j])
        == states[i].after((#[trigger] calls[i]).subject, calls[i].now) by {
        if j < calls.len() {
            assert(calls[i].after.users() == calls[j].before.users());
        }
    }
}

proof fn lemma_attempts_within(calls: Seq<GateCall>, start: nat, end: nat)
    requires
        calls_within(calls, start, end),
    ensures
        laws::within(attempts_of(calls), start, end),
{
    let attempts = attempts_of(calls);
    assert forall|i: int| 0 <= i < attempts.len() implies start <= (#[trigger] attempts[i]).now
        <= end by {
        assert(attempts[i].now == calls[i].now);
    }
    assert forall|i: int, j: int| 0 <= i <= j < attempts.len() implies (#[trigger] attempts[i]).now
        <= (#[trigger] attempts[j]).now by {
        assert(calls[i].now <= calls[j].now);
    }
}

/// In any stretch of time the outer gate forwards no more reads than the burst of the process and
/// what its rate refills in that time pay for.
pub proof fn law_outer_gate_bounds_reads(calls: Seq<GateCall>, start: nat, end: nat)
    requires
        outer_run(calls),
        calls.len() > 0,
        calls[0].before.wf(),
        start <= end,
        calls_within(calls, start, end),
    ensures
        60_000 * forwarded(calls, "process"@) <= 60_000 * calls[0].before.aggregate().burst + ((end
            - start) / 1_000_000) * calls[0].before.aggregate().per_minute,
{
    lemma_outer_run_charges(calls);
    lemma_forwarded(calls, outer_states(calls), "process"@);
    lemma_attempts_within(calls, start, end);
    limits::law_limits_stay_bounded(calls[0].before, start);
    laws::law_rate_is_bounded(
        calls[0].before.aggregate(),
        attempts_of(calls),
        "process"@,
        start,
        end,
    );
}

/// In any stretch of time the inner gate forwards no more reads of a user than the burst of a user
/// and what the rate refills in that time pay for, whatever other users do.
pub proof fn law_inner_gate_bounds_reads(
    calls: Seq<GateCall>,
    user: Seq<char>,
    start: nat,
    end: nat,
)
    requires
        inner_run(calls),
        calls.len() > 0,
        calls[0].before.wf(),
        start <= end,
        calls_within(calls, start, end),
    ensures
        60_000 * forwarded(calls, user) <= 60_000 * calls[0].before.users().burst + ((end - start)
            / 1_000_000) * calls[0].before.users().per_minute,
{
    lemma_inner_run_charges(calls);
    lemma_forwarded(calls, inner_states(calls), user);
    lemma_attempts_within(calls, start, end);
    limits::law_limits_stay_bounded(calls[0].before, start);
    laws::law_rate_is_bounded(calls[0].before.users(), attempts_of(calls), user, start, end);
}

/// Of reads that reach fresh limits at one instant, the outer gate forwards exactly the burst of the
/// process, or all of them where they are fewer.
pub proof fn law_outer_gate_grants_the_burst(
    calls: Seq<GateCall>,
    policy: super::policy::ReadRatePolicy,
    now: nat,
)
    requires
        outer_run(calls),
        calls.len() > 0,
        calls[0].before.is_made_from(policy),
        forall|i: int| 0 <= i < calls.len() ==> (#[trigger] calls[i]).now == now,
    ensures
        calls.len() <= policy.aggregate_burst ==> forwarded(calls, "process"@) == calls.len(),
        calls.len() > policy.aggregate_burst ==> forwarded(calls, "process"@)
            == policy.aggregate_burst,
{
    lemma_outer_run_charges(calls);
    lemma_forwarded(calls, outer_states(calls), "process"@);
    let budget = calls[0].before.aggregate();
    assert(attempts_of(calls) =~= laws::at_once("process"@, now, calls.len())) by {
        assert forall|i: int| 0 <= i < calls.len() implies #[trigger] attempts_of(calls)[i]
            == laws::at_once("process"@, now, calls.len())[i] by {
            assert(calls[i].now == now);
        }
    }
    assert(budget.swept(now).entries.dom() =~= Set::<Seq<char>>::empty());
    laws::law_new_subject_gets_the_burst(budget, "process"@, now, calls.len());
}

/// Of reads that a user who is not known to fresh limits makes at one instant, the inner gate
/// forwards exactly the burst of a user, or all of them where they are fewer.
pub proof fn law_inner_gate_grants_the_burst(
    calls: Seq<GateCall>,
    policy: super::policy::ReadRatePolicy,
    user: Seq<char>,
    now: nat,
)
    requires
        inner_run(calls),
        calls.len() > 0,
        calls[0].before.is_made_from(policy),
        forall|i: int|
            0 <= i < calls.len() ==> (#[trigger] calls[i]).now == now && calls[i].subject == user,
    ensures
        calls.len() <= policy.user_burst ==> forwarded(calls, user) == calls.len(),
        calls.len() > policy.user_burst ==> forwarded(calls, user) == policy.user_burst,
{
    lemma_inner_run_charges(calls);
    lemma_forwarded(calls, inner_states(calls), user);
    let budget = calls[0].before.users();
    assert(attempts_of(calls) =~= laws::at_once(user, now, calls.len())) by {
        assert forall|i: int| 0 <= i < calls.len() implies #[trigger] attempts_of(calls)[i]
            == laws::at_once(user, now, calls.len())[i] by {
            assert(calls[i].now == now);
        }
    }
    assert(budget.swept(now).entries.dom() =~= Set::<Seq<char>>::empty());
    laws::law_new_subject_gets_the_burst(budget, user, now, calls.len());
}

/// A read that the outer gate refuses goes on when it comes again after the seconds that the
/// response gives, if no other came meanwhile; and not a second earlier.
pub proof fn law_outer_gate_keeps_its_word(first: GateCall, second: GateCall, seconds: nat)
    requires
        outer_run(seq![first, second]),
        first.before.wf(),
        first.decision is Limited,
        seconds == text::decimal_value(first.decision->Limited_0.response.retry_after@),
    ensures
        second.now >= first.now + seconds * 1_000_000_000 ==> second.decision is Forward,
        second.now == first.now + (seconds - 1) * 1_000_000_000 ==> second.decision is Limited,
{
    let calls = seq![first, second];
    assert(calls[0] == first && calls[1] == second);
    let budget = first.before.aggregate();
    assert(limits::outer_gate(first.before, first.after, first.now, first.decision));
    assert(limits::outer_gate(second.before, second.after, second.now, second.decision));
    assert(first.after.aggregate() == second.before.aggregate());
    let verdict = budget.verdict("process"@, first.now);
    text::law_decimal_reads_back(verdict->Err_0 as nat);
    limits::law_limits_stay_bounded(first.before, first.now);
    laws::law_waiting_time_is_bounded(budget, "process"@, first.now);
    if second.now >= first.now + seconds * 1_000_000_000 {
        laws::law_waiting_suffices_at_any_time(budget, "process"@, first.now, second.now);
    }
    if second.now == first.now + (seconds - 1) * 1_000_000_000 {
        laws::law_waiting_is_necessary(budget, "process"@, first.now, (seconds - 1) as nat);
    }
}

/// The same of the inner gate and one user, where the user was refused for want of credit and not
/// for want of room.
pub proof fn law_inner_gate_keeps_its_word(first: GateCall, second: GateCall, seconds: nat)
    requires
        inner_run(seq![first, second]),
        first.before.wf(),
        attempt_laws::remembered(first.before.users(), first.subject, first.now),
        second.subject == first.subject,
        first.decision is Limited,
        seconds == text::decimal_value(first.decision->Limited_0.response.retry_after@),
    ensures
        second.now >= first.now + seconds * 1_000_000_000 ==> second.decision is Forward,
        second.now == first.now + (seconds - 1) * 1_000_000_000 ==> second.decision is Limited,
{
    let calls = seq![first, second];
    assert(calls[0] == first && calls[1] == second);
    let budget = first.before.users();
    let user = first.subject;
    assert(limits::inner_gate(first.before, first.after, user, first.now, first.decision));
    assert(limits::inner_gate(second.before, second.after, user, second.now, second.decision));
    assert(first.after.users() == second.before.users());
    let verdict = budget.verdict(user, first.now);
    text::law_decimal_reads_back(verdict->Err_0 as nat);
    limits::law_limits_stay_bounded(first.before, first.now);
    laws::law_waiting_time_is_bounded(budget, user, first.now);
    assert(budget.swept(first.now).entries.contains_key(user));
    if second.now >= first.now + seconds * 1_000_000_000 {
        laws::law_waiting_suffices_at_any_time(budget, user, first.now, second.now);
    }
    if second.now == first.now + (seconds - 1) * 1_000_000_000 {
        laws::law_waiting_is_necessary(budget, user, first.now, (seconds - 1) as nat);
    }
}

} // verus!
