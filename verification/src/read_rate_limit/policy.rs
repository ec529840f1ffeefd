//! The configured read capacities.

use vstd::prelude::*;
use vstd::string::*;

use crate::environment::EnvValue;
use crate::text;

verus! {

/// The largest rate or burst that can be configured.
pub const MAX_CAPACITY: u32 = 60_000;

/// The variable that sets the reads of one user in a minute.
pub const USER_RATE_VARIABLE: &'static str = "AIONUI_IDENTITY_READ_RPM";

/// The variable that sets the reads of one user at once.
pub const USER_BURST_VARIABLE: &'static str = "AIONUI_IDENTITY_READ_BURST";

/// The variable that sets the reads of all users together in a minute.
pub const AGGREGATE_RATE_VARIABLE: &'static str = "AIONUI_IDENTITY_AGGREGATE_RPM";

/// The variable that sets the reads of all users together at once.
pub const AGGREGATE_BURST_VARIABLE: &'static str = "AIONUI_IDENTITY_AGGREGATE_BURST";

/// How many reads are let through: of one user, and of all users together.
#[derive(Clone, Copy, Debug)]
pub struct ReadRatePolicy {
    pub user_per_minute: u32,
    pub user_burst: u32,
    pub aggregate_per_minute: u32,
    pub aggregate_burst: u32,
}

impl Default for ReadRatePolicy {
    fn default() -> (policy: Self)
        ensures
            policy == ReadRatePolicy::standard(),
    {
        ReadRatePolicy {
            user_per_minute: 600,
            user_burst: 60,
            aggregate_per_minute: 1200,
            aggregate_burst: 120,
        }
    }
}

/// The capacity lies between one and the largest one.
pub open spec fn capacity_in_range(capacity: u32) -> bool {
    1 <= capacity <= MAX_CAPACITY
}

fn in_range(capacity: u32) -> (fits: bool)
    ensures
        fits == capacity_in_range(capacity),
{
    1 <= capacity && capacity <= MAX_CAPACITY
}

impl ReadRatePolicy {
    /// The policy that holds where nothing is configured.
    pub open spec fn standard() -> ReadRatePolicy {
        ReadRatePolicy {
            user_per_minute: 600,
            user_burst: 60,
            aggregate_per_minute: 1200,
            aggregate_burst: 120,
        }
    }

    /// Every capacity lies in its range.
    pub open spec fn in_range(self) -> bool {
        &&& capacity_in_range(self.user_per_minute)
        &&& capacity_in_range(self.user_burst)
        &&& capacity_in_range(self.aggregate_per_minute)
        &&& capacity_in_range(self.aggregate_burst)
    }

    /// No burst exceeds its rate.
    pub open spec fn bursts_fit(self) -> bool {
        &&& self.user_burst <= self.user_per_minute
        &&& self.aggregate_burst <= self.aggregate_per_minute
    }

    /// What `validate` answers.
    pub open spec fn validated(self) -> Result<ReadRatePolicy, Seq<char>> {
        if !self.in_range() {
            Err("Identity read rate capacities must be between 1 and 60000"@)
        } else if !self.bursts_fit() {
            Err("Identity read bursts must not exceed the respective per-minute rate"@)
        } else {
            Ok(self)
        }
    }

    /// Checks all capacities before the server accepts traffic.
    pub fn validate(self) -> (checked: Result<Self, String>)
        ensures
            text::same_outcome(checked, self.validated()),
            checked is Ok <==> self.in_range() && self.bursts_fit(),
            checked matches Ok(policy) ==> policy == self,
            checked is Ok <==> {
                &&& 1 <= self.user_burst <= self.user_per_minute <= 60_000
                &&& 1 <= self.aggregate_burst <= self.aggregate_per_minute <= 60_000
            },
    {
        if !in_range(self.user_per_minute) || !in_range(self.user_burst) || !in_range(
            self.aggregate_per_minute,
        ) || !in_range(self.aggregate_burst) {
            return Err(
                "Identity read rate capacities must be between 1 and 60000".to_owned(),
            );
        }
        if self.user_burst > self.user_per_minute || self.aggregate_burst
            > self.aggregate_per_minute {
            return Err(
                "Identity read bursts must not exceed the respective per-minute rate".to_owned(),
            );
        }
        Ok(self)
    }

    /// The policy that the four variables give, before it is checked; or what is wrong with the
    /// first of them that is wrong.
    pub open spec fn configured(
        user_per_minute: EnvValue,
        user_burst: EnvValue,
        aggregate_per_minute: EnvValue,
        aggregate_burst: EnvValue,
    ) -> Result<ReadRatePolicy, Seq<char>> {
        let standard = ReadRatePolicy::standard();
        match value_of(USER_RATE_VARIABLE@, user_per_minute, standard.user_per_minute) {
            Err(error) => Err(error),
            Ok(user_per_minute) => match value_of(USER_BURST_VARIABLE@, user_burst, standard.user_burst) {
                Err(error) => Err(error),
                Ok(user_burst) => match value_of(
                    AGGREGATE_RATE_VARIABLE@,
                    aggregate_per_minute,
                    standard.aggregate_per_minute,
                ) {
                    Err(error) => Err(error),
                    Ok(aggregate_per_minute) => match value_of(
                        AGGREGATE_BURST_VARIABLE@,
                        aggregate_burst,
                        standard.aggregate_burst,
                    ) {
                        Err(error) => Err(error),
                        Ok(aggregate_burst) => Ok(
                            ReadRatePolicy {
                                user_per_minute,
                                user_burst,
                                aggregate_per_minute,
                                aggregate_burst,
                            },
                        ),
                    },
                },
            },
        }
    }

    /// Takes the capacities from the process environment, and checks them before the server
    /// accepts traffic.
    pub fn from_env(
        user_per_minute: &EnvValue,
        user_burst: &EnvValue,
        aggregate_per_minute: &EnvValue,
        aggregate_burst: &EnvValue,
    ) -> (policy: Result<Self, String>)
        ensures
            text::same_outcome(
                policy,
                match Self::configured(
                    *user_per_minute,
                    *user_burst,
                    *aggregate_per_minute,
                    *aggregate_burst,
                ) {
                    Err(error) => Err(error),
                    Ok(configured) => configured.validated(),
                },
            ),
            policy matches Ok(policy) ==> {
                &&& says(*user_per_minute, 600, policy.user_per_minute)
                &&& says(*user_burst, 60, policy.user_burst)
                &&& says(*aggregate_per_minute, 1200, policy.aggregate_per_minute)
                &&& says(*aggregate_burst, 120, policy.aggregate_burst)
                &&& 1 <= policy.user_burst <= policy.user_per_minute <= 60_000
                &&& 1 <= policy.aggregate_burst <= policy.aggregate_per_minute <= 60_000
            },
    {
        let defaults: ReadRatePolicy = ReadRatePolicy::default();
        let user_per_minute: u32 = match read_value(
            USER_RATE_VARIABLE,
            user_per_minute,
            defaults.user_per_minute,
        ) {
            Ok(value) => value,
            Err(error) => return Err(error),
        };
        let user_burst: u32 = match read_value(
            USER_BURST_VARIABLE,
            user_burst,
            defaults.user_burst,
        ) {
            Ok(value) => value,
            Err(error) => return Err(error),
        };
        let aggregate_per_minute: u32 = match read_value(
            AGGREGATE_RATE_VARIABLE,
            aggregate_per_minute,
            defaults.aggregate_per_minute,
        ) {
            Ok(value) => value,
            Err(error) => return Err(error),
        };
        let aggregate_burst: u32 = match read_value(
            AGGREGATE_BURST_VARIABLE,
            aggregate_burst,
            defaults.aggregate_burst,
        ) {
            Ok(value) => value,
            Err(error) => return Err(error),
        };
        ReadRatePolicy {
            user_per_minute,
            user_burst,
            aggregate_per_minute,
            aggregate_burst,
        }.validate()
    }
}

/// The variable gives the capacity `capacity`: it is set to that number, or it is not set and
/// `capacity` is the default.
pub open spec fn says(value: EnvValue, default: u32, capacity: u32) -> bool {
    match value {
        EnvValue::Present(text) => text::parsed_u32(text@) == Some(capacity),
        EnvValue::NotPresent => capacity == default,
        EnvValue::NotUnicode => false,
    }
}

/// The variable is set, but not to a number.
pub open spec fn is_wrong(value: EnvValue) -> bool {
    match value {
        EnvValue::Present(text) => text::parsed_u32(text@) is None,
        EnvValue::NotPresent => false,
        EnvValue::NotUnicode => true,
    }
}

/// What `read_value` answers.
pub open spec fn value_of(name: Seq<char>, value: EnvValue, default: u32) -> Result<
    u32,
    Seq<char>,
> {
    let complaint: Result<u32, Seq<char>> = Err(name + " must be a positive integer"@);
    match value {
        EnvValue::Present(text) => match text::parsed_u32(text@) {
            Some(number) => Ok(number),
            None => complaint,
        },
        EnvValue::NotPresent => Ok(default),
        EnvValue::NotUnicode => complaint,
    }
}

/// Reads the number that the variable `name` is set to, or takes the default where it is not set.
pub fn read_value(name: &str, value: &EnvValue, default: u32) -> (number: Result<u32, String>)
    ensures
        text::same_outcome(number, value_of(name@, *value, default)),
        number matches Ok(number) ==> says(*value, default, number),
        number matches Err(message) ==> message@ == name@ + " must be a positive integer"@,
        number is Err <==> is_wrong(*value),
{
    let parsed: Option<u32> = match value {
        EnvValue::Present(text) => text::parse_u32(text.as_str()),
        EnvValue::NotPresent => Some(default),
        EnvValue::NotUnicode => None,
    };
    match parsed {
        Some(number) => Ok(number),
        None => {
            let mut complaint: String = name.to_owned();
            complaint.append(" must be a positive integer");
            Err(complaint)
        },
    }
}

/// A policy is accepted if and only if every capacity lies between 1 and 60000 and no burst exceeds
/// its rate; it then comes back as it was given. A capacity out of range is complained of first.
pub proof fn law_accepted_policies_are_unchanged(policy: ReadRatePolicy)
    ensures
        policy.validated() is Ok <==> {
            &&& 1 <= policy.user_burst <= policy.user_per_minute <= 60_000
            &&& 1 <= policy.aggregate_burst <= policy.aggregate_per_minute <= 60_000
        },
        policy.validated() is Ok ==> policy.validated()->Ok_0 == policy,
        policy.validated() matches Err(message) ==> message == if 1 <= policy.user_per_minute
            <= 60_000 && 1 <= policy.user_burst <= 60_000 && 1 <= policy.aggregate_per_minute
            <= 60_000 && 1 <= policy.aggregate_burst <= 60_000 {
            "Identity read bursts must not exceed the respective per-minute rate"@
        } else {
            "Identity read rate capacities must be between 1 and 60000"@
        },
{
}

/// What is accepted once is accepted again, and smaller bursts are accepted wherever larger ones
/// are.
pub proof fn law_smaller_bursts_are_accepted(policy: ReadRatePolicy, smaller: ReadRatePolicy)
    requires
        policy.validated() is Ok,
        smaller.user_per_minute == policy.user_per_minute,
        smaller.aggregate_per_minute == policy.aggregate_per_minute,
        1 <= smaller.user_burst <= policy.user_burst,
        1 <= smaller.aggregate_burst <= policy.aggregate_burst,
    ensures
        policy.validated()->Ok_0.validated() == policy.validated(),
        smaller.validated() is Ok,
{
}

/// A variable that is not set gives the default, one that is set to a number gives the number, and
/// any other is complained of by its name.
pub proof fn law_values_are_read(name: Seq<char>, value: EnvValue, default: u32)
    ensures
        value is NotPresent ==> value_of(name, value, default) == Ok::<u32, Seq<char>>(default),
        value is NotUnicode ==> value_of(name, value, default) is Err,
        value matches EnvValue::Present(text) ==> (value_of(name, value, default) is Err
            <==> text::parsed_u32(text@) is None),
        value matches EnvValue::Present(text) ==> (value_of(name, value, default) is Ok
            ==> text::parsed_u32(text@) == Some(value_of(name, value, default)->Ok_0)),
        value_of(name, value, default) matches Err(message) ==> message == name
            + " must be a positive integer"@,
{
}

/// A variable that is set to a number in decimal gives that number, whatever the default is.
pub proof fn law_written_values_are_read(
    name: Seq<char>,
    text: String,
    number: u32,
    default: u32,
)
    requires
        text@ == text::decimal(number as nat),
    ensures
        value_of(name, EnvValue::Present(text), default) == Ok::<u32, Seq<char>>(number),
{
    text::law_written_numbers_are_read(number as nat);
}

/// Each capacity is what its own variable says: the number that it is set to, or the default where
/// it is not set.
pub proof fn law_capacities_come_from_their_variables(
    user_per_minute: EnvValue,
    user_burst: EnvValue,
    aggregate_per_minute: EnvValue,
    aggregate_burst: EnvValue,
    policy: ReadRatePolicy,
)
    requires
        ReadRatePolicy::configured(
            user_per_minute,
            user_burst,
            aggregate_per_minute,
            aggregate_burst,
        ) == Ok::<ReadRatePolicy, Seq<char>>(policy),
    ensures
        user_per_minute is NotPresent ==> policy.user_per_minute == 600,
        user_burst is NotPresent ==> policy.user_burst == 60,
        aggregate_per_minute is NotPresent ==> policy.aggregate_per_minute == 1200,
        aggregate_burst is NotPresent ==> policy.aggregate_burst == 120,
        user_per_minute matches EnvValue::Present(text) ==> text::parsed_u32(text@) == Some(
            policy.user_per_minute,
        ),
        user_burst matches EnvValue::Present(text) ==> text::parsed_u32(text@) == Some(
            policy.user_burst,
        ),
        aggregate_per_minute matches EnvValue::Present(text) ==> text::parsed_u32(text@) == Some(
            policy.aggregate_per_minute,
        ),
        aggregate_burst matches EnvValue::Present(text) ==> text::parsed_u32(text@) == Some(
            policy.aggregate_burst,
        ),
        user_per_minute !is NotUnicode,
        user_burst !is NotUnicode,
        aggregate_per_minute !is NotUnicode,
        aggregate_burst !is NotUnicode,
{
}

/// A policy is configured unless a variable is set to something that is no number, and the first
/// such variable is complained of by its name.
pub proof fn law_first_wrong_variable_is_named(
    user_per_minute: EnvValue,
    user_burst: EnvValue,
    aggregate_per_minute: EnvValue,
    aggregate_burst: EnvValue,
)
    ensures
        ({
            let wrong = |value: EnvValue|
                value is NotUnicode || (value is Present && text::parsed_u32(
                    value->Present_0@,
                ) is None);
            let complaint = " must be a positive integer"@;
            let configured = ReadRatePolicy::configured(
                user_per_minute,
                user_burst,
                aggregate_per_minute,
                aggregate_burst,
            );
            if wrong(user_per_minute) {
                configured == Err::<ReadRatePolicy, Seq<char>>(
                    "AIONUI_IDENTITY_READ_RPM"@ + complaint,
                )
            } else if wrong(user_burst) {
                configured == Err::<ReadRatePolicy, Seq<char>>(
                    "AIONUI_IDENTITY_READ_BURST"@ + complaint,
                )
            } else if wrong(aggregate_per_minute) {
                configured == Err::<ReadRatePolicy, Seq<char>>(
                    "AIONUI_IDENTITY_AGGREGATE_RPM"@ + complaint,
                )
            } else if wrong(aggregate_burst) {
                configured == Err::<ReadRatePolicy, Seq<char>>(
                    "AIONUI_IDENTITY_AGGREGATE_BURST"@ + complaint,
                )
            } else {
                configured is Ok
            }
        }),
{
}

} // verus!
