//! What the process environment says of one variable.

use vstd::prelude::*;

verus! {

/// A variable of the process environment.
pub enum EnvValue {
    /// The variable is set to this text.
    Present(String),
    /// The variable is not set.
    NotPresent,
    /// The variable is set, but not to text.
    NotUnicode,
}

impl EnvValue {
    /// The text of the variable, where there is one.
    pub open spec fn spec_text(self) -> Option<Seq<char>> {
        match self {
            EnvValue::Present(text) => Some(text@),
            EnvValue::NotPresent => None,
            EnvValue::NotUnicode => None,
        }
    }

    /// The text of the variable, where there is one.
    pub fn text(&self) -> (text: Option<&str>)
        ensures
            text is Some <==> self.spec_text() is Some,
            text is Some ==> text->0@ == self.spec_text()->0,
            text is Some <==> self is Present,
            self matches EnvValue::Present(set) ==> text->0@ == set@,
    {
        match self {
            EnvValue::Present(text) => Some(text.as_str()),
            EnvValue::NotPresent => None,
            EnvValue::NotUnicode => None,
        }
    }
}

/// A variable has a text if and only if it is set to one, and then that one.
pub proof fn law_variables_have_their_own_text(value: EnvValue)
    ensures
        value.spec_text() is Some <==> value is Present,
        value matches EnvValue::Present(text) ==> value.spec_text() == Some(text@),
{
}

} // verus!
