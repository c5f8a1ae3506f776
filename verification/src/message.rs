//! The text of the errors.

use crate::device_policy::DevicePolicyError;
use crate::device_policy::SCHEMA_VERSION;
use crate::framework::LoadError;
use crate::framework::VerificationError;
use vstd::prelude::*;

verus! {

/// An error that can say in words what went wrong.
pub trait Describe {
    /// What the error says.
    spec fn description(&self) -> Seq<char>;

    /// Says what went wrong.
    fn describe(&self) -> (text: String)
        ensures
            text@ == self.description(),
    ;
}

/// The decimal digits, in order.
pub open spec fn digits() -> Seq<char> {
    seq!['0', '1', '2', '3', '4', '5', '6', '7', '8', '9']
}

/// `number` in decimal, without leading zeros.
pub open spec fn decimal(number: nat) -> Seq<char>
    decreases number,
{
    if number < 10 {
        seq![digits()[number as int]]
    } else {
        decimal(number / 10) + seq![digits()[(number % 10) as int]]
    }
}

fn digit_text(digit: u64) -> (text: &'static str)
    requires
        digit < 10,
    ensures
        text@ == seq![digits()[digit as int]],
{
    proof {
        reveal_strlit("0");
        reveal_strlit("1");
        reveal_strlit("2");
        reveal_strlit("3");
        reveal_strlit("4");
        reveal_strlit("5");
        reveal_strlit("6");
        reveal_strlit("7");
        reveal_strlit("8");
        reveal_strlit("9");
    }
    match digit {
        0 => "0",
        1 => "1",
        2 => "2",
        3 => "3",
        4 => "4",
        5 => "5",
        6 => "6",
        7 => "7",
        8 => "8",
        _ => "9",
    }
}

/// Writes `number` in decimal.
pub fn decimal_text(number: u64) -> (text: String)
    ensures
        text@ == decimal(number as nat),
    decreases number,
{
    if number < 10 {
        digit_text(number).to_owned()
    } else {
        let mut text = decimal_text(number / 10);
        text.append(digit_text(number % 10));
        text
    }
}

impl Describe for VerificationError {
    open spec fn description(&self) -> Seq<char> {
        "policy failed verification"@
    }

    fn describe(&self) -> (text: String) {
        "policy failed verification".to_owned()
    }
}

impl<E: Describe> Describe for LoadError<E> {
    /// A load error says what its cause says.
    open spec fn description(&self) -> Seq<char> {
        match self {
            LoadError::Verification(error) => error.description(),
            LoadError::Policy(error) => error.description(),
        }
    }

    fn describe(&self) -> (text: String) {
        match self {
            LoadError::Verification(error) => error.describe(),
            LoadError::Policy(error) => error.describe(),
        }
    }
}

impl Describe for DevicePolicyError {
    open spec fn description(&self) -> Seq<char> {
        match self {
            DevicePolicyError::Parse(text) => "failed to parse device policy: "@ + text@,
            DevicePolicyError::UnsupportedVersion(version) => {
                "unsupported device policy version "@ + decimal(*version as nat) + " (expected "@
                    + decimal(SCHEMA_VERSION as nat) + ")"@
            },
            DevicePolicyError::RuleExceedsCeiling(index) => {
                "device policy rule "@ + decimal(*index as nat)
                    + " exceeds the capability ceiling"@
            },
        }
    }

    fn describe(&self) -> (text: String) {
        match self {
            DevicePolicyError::Parse(reason) => {
                let mut text = "failed to parse device policy: ".to_owned();
                text.append(reason.as_str());
                text
            },
            DevicePolicyError::UnsupportedVersion(version) => {
                let mut text = "unsupported device policy version ".to_owned();
                text.append(decimal_text(*version as u64).as_str());
                text.append(" (expected ");
                text.append(decimal_text(SCHEMA_VERSION as u64).as_str());
                text.append(")");
                text
            },
            DevicePolicyError::RuleExceedsCeiling(index) => {
                let mut text = "device policy rule ".to_owned();
                text.append(decimal_text(*index as u64).as_str());
                text.append(" exceeds the capability ceiling");
                text
            },
        }
    }
}

} // verus!
