//! What the texts of the errors say.

use crate::device_policy::DevicePolicyError;
use crate::framework::LoadError;
use crate::framework::VerificationError;
use crate::message::Describe;
use vstd::prelude::*;

verus! {

/// The number that a string of decimal digits stands for.
pub open spec fn number_of(digits: Seq<char>) -> int
    decreases digits.len(),
{
    if digits.len() == 0 {
        0
    } else {
        10 * number_of(digits.drop_last()) + (digits.last() as int - '0' as int)
    }
}

/// A number in decimal is made of digits, has no leading zero, and stands for the
/// number.
pub proof fn law_decimal_stands_for_its_number(number: nat)
    ensures
        number_of(crate::message::decimal(number)) == number,
        crate::message::decimal(number).len() > 0,
        forall|i: int|
            0 <= i < crate::message::decimal(number).len() ==> '0' <= #[trigger]
                crate::message::decimal(number)[i] <= '9',
        crate::message::decimal(number)[0] == '0' ==> number == 0,
    decreases number,
{
    let text = crate::message::decimal(number);
    let digit = (number % 10) as int;
    assert(crate::message::digits()[digit] as int == '0' as int + digit);
    if number >= 10 {
        law_decimal_stands_for_its_number(number / 10);
        assert(text.drop_last() == crate::message::decimal(number / 10));
        assert(text.last() == crate::message::digits()[digit]);
        assert(text[0] == crate::message::decimal(number / 10)[0]);
        assert forall|i: int| 0 <= i < text.len() implies '0' <= #[trigger] text[i] <= '9' by {
            if i < text.len() - 1 {
                assert(text[i] == crate::message::decimal(number / 10)[i]);
            }
        }
    } else {
        assert(text.drop_last() == Seq::<char>::empty());
        assert(text.last() == crate::message::digits()[digit]);
    }
    assert(number_of(text) == 10 * number_of(text.drop_last()) + (text.last() as int - '0' as int));
}

/// No two numbers are the same in decimal.
pub proof fn law_decimals_differ(left: nat, right: nat)
    requires
        crate::message::decimal(left) == crate::message::decimal(right),
    ensures
        left == right,
{
    law_decimal_stands_for_its_number(left);
    law_decimal_stands_for_its_number(right);
}

/// Whether the text is `head`, a number in decimal digits, and `tail`.
pub open spec fn gives_number(
    text: Seq<char>,
    head: Seq<char>,
    number: int,
    tail: Seq<char>,
) -> bool {
    exists|digits: Seq<char>|
        {
            &&& text == #[trigger] (head + digits + tail)
            &&& number_of(digits) == number
            &&& digits.len() > 0
            &&& forall|i: int| 0 <= i < digits.len() ==> '0' <= #[trigger] digits[i] <= '9'
        }
}

/// The error about a version says which version it was and which one is expected.
pub proof fn law_version_error_names_both_versions(version: u32)
    ensures
        gives_number(
            DevicePolicyError::UnsupportedVersion(version).description(),
            "unsupported device policy version "@,
            version as int,
            " (expected 1)"@,
        ),
{
    law_decimal_stands_for_its_number(version as nat);
    reveal_strlit(" (expected ");
    reveal_strlit(" (expected 1)");
    reveal_strlit(")");
    assert(crate::message::decimal(1) == seq!['1']);
    assert(" (expected "@ + seq!['1'] + ")"@ =~= " (expected 1)"@);
    assert(DevicePolicyError::UnsupportedVersion(version).description()
        == "unsupported device policy version "@ + crate::message::decimal(version as nat)
        + " (expected 1)"@);
}

/// The error about a rule says which rule it was, counted from zero.
pub proof fn law_ceiling_error_names_the_rule(index: usize)
    ensures
        gives_number(
            DevicePolicyError::RuleExceedsCeiling(index).description(),
            "device policy rule "@,
            index as int,
            " exceeds the capability ceiling"@,
        ),
{
    law_decimal_stands_for_its_number(index as nat);
}

/// The error of parsing ends in what was wrong with the bytes.
pub proof fn law_parse_error_ends_in_its_reason(reason: String)
    ensures
        ({
            let head = "failed to parse device policy: "@;
            let text = DevicePolicyError::Parse(reason).description();
            &&& text.len() == head.len() + reason@.len()
            &&& text.take(head.len() as int) == head
            &&& text.skip(head.len() as int) == reason@
        }),
{
    let head = "failed to parse device policy: "@;
    let text = DevicePolicyError::Parse(reason).description();
    assert(text.take(head.len() as int) =~= head);
    assert(text.skip(head.len() as int) =~= reason@);
}

/// An error of loading says just what its cause says.
pub proof fn law_load_error_says_its_cause<E: Describe>(refusal: VerificationError, error: E)
    ensures
        LoadError::<E>::Verification(refusal).description() == refusal.description(),
        LoadError::Policy(error).description() == error.description(),
        refusal.description() == "policy failed verification"@,
{
}

} // verus!
