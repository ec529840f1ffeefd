//! The two gates that an identity read passes: the process budget and the user's own.

use vstd::prelude::*;
use vstd::string::*;

use super::model::{BucketModel, BucketsModel};
use super::policy::{ReadRatePolicy, MAX_CAPACITY};
use super::token_buckets::TokenBuckets;
use crate::digest;
use crate::text;

verus! {

/// The one subject of the process budget. It is owned by the process and not derived from what a
/// request says of its origin.
pub const PROCESS_SUBJECT: &'static str = "process";

/// The class under which a refusal by the process budget is logged.
pub const AGGREGATE_CLASS: &'static str = "identity_aggregate";

/// The class under which a refusal by a user's own budget is logged.
pub const USER_CLASS: &'static str = "identity_user";

/// The status of a response to a request that came too early.
pub const TOO_MANY_REQUESTS: u16 = 429;

/// How many hexadecimal digits of a subject's digest are logged.
pub const SUBJECT_KEY_DIGITS: usize = 16;

/// What the client is told.
pub struct RefusalResponse {
    pub status: u16,
    /// The value of the `Retry-After` header.
    pub retry_after: String,
}

/// What is written to the log.
pub struct RefusalRecord {
    pub limiter_class: &'static str,
    /// Tells subjects apart without naming them.
    pub subject_key: String,
    pub retry_after: u64,
}

/// A refused read.
pub struct Refusal {
    pub response: RefusalResponse,
    pub record: RefusalRecord,
}

impl Refusal {
    /// The refusal of a subject whose salted digest is `digest`, in the class `class`, with
    /// `retry_after` seconds to wait.
    pub open spec fn is_for(self, class: Seq<char>, digest: Seq<u8>, retry_after: u64) -> bool {
        &&& self.response.status == TOO_MANY_REQUESTS
        &&& self.response.retry_after@ == text::decimal(retry_after as nat)
        &&& self.record.limiter_class@ == class
        &&& self.record.subject_key@ == digest::hex(digest).take(SUBJECT_KEY_DIGITS as int)
        &&& self.record.retry_after == retry_after
    }
}

/// Makes the refusal of a subject whose salted digest is `digest`.
pub fn refusal(class: &'static str, digest: &[u8; 32], retry_after: u64) -> (refusal: Refusal)
    ensures
        refusal.is_for(class@, digest@, retry_after),
        refusal.response.status == 429,
        refusal.response.retry_after@ == text::decimal(retry_after as nat),
        refusal.record.limiter_class@ == class@,
        refusal.record.retry_after == retry_after,
        refusal.record.subject_key@ == digest::hex(digest@.take(8)),
{
    let subject_key: String = digest::hex_text(digest.as_slice(), SUBJECT_KEY_DIGITS / 2);
    Refusal {
        response: RefusalResponse {
            status: TOO_MANY_REQUESTS,
            retry_after: text::decimal_text(retry_after),
        },
        record: RefusalRecord { limiter_class: class, subject_key, retry_after },
    }
}

/// What happens to a read.
pub enum ReadDecision {
    /// It goes on.
    Forward,
    /// It comes from no authenticated user, and is answered with this message.
    Unauthorized(String),
    /// It came too early.
    Limited(Refusal),
}

/// The error type of the `getrandom` crate.
#[verifier::external_type_specification]
#[verifier::external_body]
pub struct ExRandomError(getrandom::Error);

/// Calls `getrandom::getrandom` on 32 bytes.
///
/// Nothing is claimed of the bytes or of whether there are any: both rest on the operating
/// system's source of randomness.
#[verifier::external_body]
fn random_salt() -> (salt: Result<[u8; 32], getrandom::Error>) {
    let mut salt = [0u8; 32];
    getrandom::getrandom(&mut salt)?;
    Ok(salt)
}

/// The bytes whose digest tells a subject apart in the log.
pub open spec fn subject_material(salt: Seq<u8>, subject: Seq<char>) -> Seq<u8> {
    salt + vstd::utf8::encode_utf8(subject)
}

/// The limits on identity reads.
pub struct IdentityReadLimits {
    users: TokenBuckets,
    aggregate: TokenBuckets,
    log_salt: [u8; 32],
}

/// Buckets as they are made: no subject is known.
pub open spec fn unused(per_minute: u32, burst: u32) -> BucketsModel {
    BucketsModel {
        per_minute: per_minute as nat,
        burst: burst as nat,
        entries: Map::empty(),
        last_cleanup: 0,
    }
}

/// The rate and the burst are ones that a checked policy gives.
pub open spec fn policed(buckets: BucketsModel) -> bool {
    1 <= buckets.burst <= buckets.per_minute <= MAX_CAPACITY
}

impl IdentityReadLimits {
    /// The buckets of the users.
    pub closed spec fn users(self) -> BucketsModel {
        self.users@
    }

    /// The bucket of the process.
    pub closed spec fn aggregate(self) -> BucketsModel {
        self.aggregate@
    }

    /// The salt of the digests that are logged.
    pub closed spec fn log_salt(self) -> Seq<u8> {
        self.log_salt@
    }

    /// The buckets are well formed, their rates and bursts are ones that a checked policy gives,
    /// and the process budget knows of no subject but the process.
    pub closed spec fn wf(self) -> bool {
        &&& self.users.wf()
        &&& self.aggregate.wf()
        &&& policed(self.users@)
        &&& policed(self.aggregate@)
        &&& self.aggregate@.entries.dom().subset_of(set![PROCESS_SUBJECT@])
    }

    /// The limits as they are made from a checked policy.
    pub open spec fn is_made_from(self, policy: ReadRatePolicy) -> bool {
        &&& self.users() == unused(policy.user_per_minute, policy.user_burst)
        &&& self.aggregate() == unused(policy.aggregate_per_minute, policy.aggregate_burst)
    }

    /// Makes limits from a policy and from the salt that could be had.
    pub fn from_salt(policy: ReadRatePolicy, salt: Option<[u8; 32]>) -> (limits: Result<
        Self,
        String,
    >)
        ensures
            match policy.validated() {
                Err(error) => limits is Err && limits->Err_0@ == error,
                Ok(policy) => match salt {
                    None => limits is Err && limits->Err_0@
                        == "Cannot initialize rate-limit diagnostics"@,
                    Some(salt) => limits is Ok && {
                        &&& limits->Ok_0.wf()
                        &&& limits->Ok_0.is_made_from(policy)
                        &&& limits->Ok_0.log_salt() == salt@
                        &&& limits->Ok_0.users().per_minute == policy.user_per_minute
                        &&& limits->Ok_0.users().burst == policy.user_burst
                        &&& limits->Ok_0.users().entries == Map::<Seq<char>, BucketModel>::empty()
                        &&& limits->Ok_0.aggregate().per_minute == policy.aggregate_per_minute
                        &&& limits->Ok_0.aggregate().burst == policy.aggregate_burst
                        &&& limits->Ok_0.aggregate().entries == Map::<
                            Seq<char>,
                            BucketModel,
                        >::empty()
                    },
                },
            },
    {
        let policy: ReadRatePolicy = match policy.validate() {
            Ok(policy) => policy,
            Err(error) => return Err(error),
        };
        match salt {
            None => Err("Cannot initialize rate-limit diagnostics".to_owned()),
            Some(log_salt) => Ok(
                IdentityReadLimits {
                    users: TokenBuckets::new(policy.user_per_minute, policy.user_burst),
                    aggregate: TokenBuckets::new(
                        policy.aggregate_per_minute,
                        policy.aggregate_burst,
                    ),
                    log_salt,
                },
            ),
        }
    }

    /// Makes limits from a policy, with a salt of their own.
    ///
    /// Whether the operating system has randomness to give is left open, and so is the salt.
    pub fn new(policy: ReadRatePolicy) -> (limits: Result<Self, String>)
        ensures
            match policy.validated() {
                Err(error) => limits is Err && limits->Err_0@ == error,
                Ok(policy) => match limits {
                    Ok(limits) => limits.wf() && limits.is_made_from(policy),
                    Err(error) => error@ == "Cannot initialize rate-limit diagnostics"@,
                },
            },
            limits matches Ok(limits) ==> {
                &&& limits.users().per_minute == policy.user_per_minute
                &&& limits.users().burst == policy.user_burst
                &&& limits.aggregate().per_minute == policy.aggregate_per_minute
                &&& limits.aggregate().burst == policy.aggregate_burst
                &&& 1 <= policy.user_burst <= policy.user_per_minute <= 60_000
                &&& 1 <= policy.aggregate_burst <= policy.aggregate_per_minute <= 60_000
            },
    {
        let policy: ReadRatePolicy = match policy.validate() {
            Ok(policy) => policy,
            Err(error) => return Err(error),
        };
        let salt: Option<[u8; 32]> = match random_salt() {
            Ok(salt) => Some(salt),
            Err(_) => None,
        };
        Self::from_salt(policy, salt)
    }

    /// Refuses a read of `subject` in the class `class`.
    pub fn limited(&self, class: &'static str, subject: &str, retry_after: u64) -> (refused: Refusal)
        ensures
            refused.is_for(
                class@,
                digest::sha256(subject_material(self.log_salt(), subject@)),
                retry_after,
            ),
            refused.response.status == 429,
            refused.response.retry_after@ == text::decimal(retry_after as nat),
            refused.record.limiter_class@ == class@,
            refused.record.retry_after == retry_after,
            refused.record.subject_key@ == digest::hex(
                digest::sha256(self.log_salt() + vstd::utf8::encode_utf8(subject@)).take(8),
            ),
    {
        let mut material: Vec<u8> = Vec::new();
        material.extend_from_slice(self.log_salt.as_slice());
        material.extend_from_slice(subject.as_bytes());
        assert(material@ =~= subject_material(self.log_salt(), subject@));
        refusal(class, &digest::sha256_digest(material.as_slice()), retry_after)
    }
}

/// Limits keep their storage bounded and their rates as a checked policy gave them, and the process
/// always finds room in its own budget.
pub proof fn law_limits_stay_bounded(limits: IdentityReadLimits, now: nat)
    requires
        limits.wf(),
    ensures
        limits.users().valid(),
        limits.aggregate().valid(),
        policed(limits.users()),
        policed(limits.aggregate()),
        1 <= limits.users().burst <= limits.users().per_minute <= 60_000,
        1 <= limits.aggregate().burst <= limits.aggregate().per_minute <= 60_000,
        limits.users().entries.len() <= 4096,
        limits.aggregate().swept(now).has_room_for(PROCESS_SUBJECT@),
{
    super::token_buckets::law_storage_is_bounded(limits.users);
    super::token_buckets::law_storage_is_bounded(limits.aggregate);
    let swept = limits.aggregate@.swept(now);
    if !swept.entries.contains_key(PROCESS_SUBJECT@) {
        assert(swept.entries.dom() =~= Set::<Seq<char>>::empty());
    }
}

/// A refusal is answered with status 429 and the waiting time in decimal, and is logged with its
/// class, its waiting time and the first eight bytes of the digest.
pub proof fn law_refusals_say(
    refusal: Refusal,
    class: Seq<char>,
    digest: Seq<u8>,
    retry_after: u64,
    i: int,
)
    requires
        refusal.is_for(class, digest, retry_after),
        digest.len() == 32,
        0 <= i < 8,
    ensures
        refusal.response.status == 429,
        text::decimal_value(refusal.response.retry_after@) == retry_after,
        refusal.response.retry_after@ == text::decimal(retry_after as nat),
        refusal.record.limiter_class@ == class,
        refusal.record.retry_after == retry_after,
        refusal.record.subject_key@.len() == 16,
        16 * digest::hex_value(refusal.record.subject_key@[2 * i]) + digest::hex_value(
            refusal.record.subject_key@[2 * i + 1],
        ) == digest[i],
{
    text::law_decimal_reads_back(retry_after as nat);
    digest::law_hex_digits(digest, i);
}

/// What is digested for the log is the salt and, behind it, the subject, and nothing else: under one
/// salt no two subjects are digested as the same bytes.
pub proof fn law_subject_material_is_salt_and_subject(
    salt: Seq<u8>,
    subject: Seq<char>,
    other: Seq<char>,
)
    ensures
        subject_material(salt, subject).take(salt.len() as int) == salt,
        subject_material(salt, subject).skip(salt.len() as int) == vstd::utf8::encode_utf8(subject),
        subject_material(salt, subject) == subject_material(salt, other) ==> subject == other,
{
    let size = salt.len() as int;
    assert(subject_material(salt, subject).take(size) =~= salt);
    assert(subject_material(salt, subject).skip(size) =~= vstd::utf8::encode_utf8(subject));
    assert(subject_material(salt, other).skip(size) =~= vstd::utf8::encode_utf8(other));
    vstd::utf8::encode_utf8_decode_utf8(subject);
    vstd::utf8::encode_utf8_decode_utf8(other);
}

/// Limits are made with the rates and bursts of their policy, each budget with its own, and know of
/// no subject.
pub proof fn law_limits_are_made_from_their_policy(
    limits: IdentityReadLimits,
    policy: ReadRatePolicy,
)
    requires
        limits.is_made_from(policy),
    ensures
        limits.users().per_minute == policy.user_per_minute,
        limits.users().burst == policy.user_burst,
        limits.aggregate().per_minute == policy.aggregate_per_minute,
        limits.aggregate().burst == policy.aggregate_burst,
        forall|subject: Seq<char>| !#[trigger] limits.users().entries.contains_key(subject),
        forall|subject: Seq<char>| !#[trigger] limits.aggregate().entries.contains_key(subject),
        limits.users().last_cleanup == 0,
        limits.aggregate().last_cleanup == 0,
{
}

/// What the client is told of a refusal depends on the waiting time alone: it is the same whichever
/// subject was refused.
pub proof fn law_response_hides_the_subject(
    a: Refusal,
    b: Refusal,
    class: Seq<char>,
    digest: Seq<u8>,
    other_class: Seq<char>,
    other_digest: Seq<u8>,
    retry_after: u64,
)
    requires
        a.is_for(class, digest, retry_after),
        b.is_for(other_class, other_digest, retry_after),
    ensures
        a.response.status == b.response.status,
        a.response.retry_after@ == b.response.retry_after@,
{
}

/// What a gate does with a read of `subject`: it passes where the buckets let it, and is refused
/// with the waiting time that they give where they do not.
pub open spec fn gate_decides(
    decision: ReadDecision,
    verdict: Result<(), u64>,
    class: Seq<char>,
    salt: Seq<u8>,
    subject: Seq<char>,
) -> bool {
    match verdict {
        Ok(()) => decision is Forward,
        Err(seconds) => decision is Limited && decision->Limited_0.is_for(
            class,
            digest::sha256(subject_material(salt, subject)),
            seconds,
        ),
    }
}

/// What a call of the outer gate does.
pub open spec fn outer_gate(
    before: IdentityReadLimits,
    after: IdentityReadLimits,
    now: nat,
    decision: ReadDecision,
) -> bool {
    &&& after.users() == before.users()
    &&& after.log_salt() == before.log_salt()
    &&& after.aggregate() == before.aggregate().after(PROCESS_SUBJECT@, now)
    &&& gate_decides(
        decision,
        before.aggregate().verdict(PROCESS_SUBJECT@, now),
        AGGREGATE_CLASS@,
        before.log_salt(),
        PROCESS_SUBJECT@,
    )
}

/// What a call of the inner gate does with a read of the user `id`.
pub open spec fn inner_gate(
    before: IdentityReadLimits,
    after: IdentityReadLimits,
    id: Seq<char>,
    now: nat,
    decision: ReadDecision,
) -> bool {
    &&& after.aggregate() == before.aggregate()
    &&& after.log_salt() == before.log_salt()
    &&& after.users() == before.users().after(id, now)
    &&& gate_decides(
        decision,
        before.users().verdict(id, now),
        USER_CLASS@,
        before.log_salt(),
        id,
    )
}

/// The outer gate: all read attempts share the budget of the process.
pub fn aggregate_read_rate_limit_middleware(
    limits: &mut IdentityReadLimits,
    now: u128,
) -> (decision: ReadDecision)
    requires
        old(limits).wf(),
    ensures
        final(limits).wf(),
        final(limits).users() == old(limits).users(),
        final(limits).log_salt() == old(limits).log_salt(),
        final(limits).aggregate() == old(limits).aggregate().after(
            PROCESS_SUBJECT@,
            now as nat,
        ),
        gate_decides(
            decision,
            old(limits).aggregate().verdict(PROCESS_SUBJECT@, now as nat),
            AGGREGATE_CLASS@,
            old(limits).log_salt(),
            PROCESS_SUBJECT@,
        ),
        outer_gate(*old(limits), *final(limits), now as nat, decision),
        decision is Forward <==> old(limits).aggregate().verdict("process"@, now as nat) is Ok,
        decision is Limited <==> old(limits).aggregate().verdict("process"@, now as nat) is Err,
        decision matches ReadDecision::Limited(refused) ==> {
            let seconds = old(limits).aggregate().verdict("process"@, now as nat)->Err_0;
            &&& refused.response.status == 429
            &&& refused.response.retry_after@ == text::decimal(seconds as nat)
            &&& refused.record.limiter_class@ == "identity_aggregate"@
            &&& refused.record.subject_key@ == digest::hex(
                digest::sha256(old(limits).log_salt() + vstd::utf8::encode_utf8("process"@)),
            ).take(16)
            &&& refused.record.retry_after == seconds
        },
{
    match limits.aggregate.check_at(PROCESS_SUBJECT, now) {
        Ok(()) => ReadDecision::Forward,
        Err(retry) => ReadDecision::Limited(
            limits.limited(AGGREGATE_CLASS, PROCESS_SUBJECT, retry),
        ),
    }
}

/// The inner gate: only a user that has been authenticated has a budget.
pub fn user_read_rate_limit_middleware(
    limits: &mut IdentityReadLimits,
    user: Option<&str>,
    now: u128,
) -> (decision: ReadDecision)
    requires
        old(limits).wf(),
    ensures
        final(limits).wf(),
        final(limits).aggregate() == old(limits).aggregate(),
        final(limits).log_salt() == old(limits).log_salt(),
        match user {
            None => {
                &&& decision is Unauthorized
                &&& decision->Unauthorized_0@ == "Authentication required"@
                &&& final(limits).users() == old(limits).users()
            },
            Some(id) => {
                &&& final(limits).users() == old(limits).users().after(id@, now as nat)
                &&& gate_decides(
                    decision,
                    old(limits).users().verdict(id@, now as nat),
                    USER_CLASS@,
                    old(limits).log_salt(),
                    id@,
                )
                &&& inner_gate(*old(limits), *final(limits), id@, now as nat, decision)
            },
        },
        decision is Unauthorized <==> user is None,
        decision is Forward <==> user is Some && old(limits).users().verdict(
            user->0@,
            now as nat,
        ) is Ok,
        decision matches ReadDecision::Limited(refused) ==> {
            let seconds = old(limits).users().verdict(user->0@, now as nat)->Err_0;
            &&& refused.response.status == 429
            &&& refused.response.retry_after@ == text::decimal(seconds as nat)
            &&& refused.record.limiter_class@ == "identity_user"@
            &&& refused.record.subject_key@ == digest::hex(
                digest::sha256(old(limits).log_salt() + vstd::utf8::encode_utf8(user->0@)),
            ).take(16)
            &&& refused.record.retry_after == seconds
        },
{
    match user {
        None => ReadDecision::Unauthorized("Authentication required".to_owned()),
        Some(id) => match limits.users.check_at(id, now) {
            Ok(()) => ReadDecision::Forward,
            Err(retry) => ReadDecision::Limited(limits.limited(USER_CLASS, id, retry)),
        },
    }
}

} // verus!
