//! The fields of an identity and the challenges by which they are verified.
use crate::display_name::{DisplayNameEntry, NameEntryModel};
use crate::hex_text;
use crate::identity::{FieldValueModel, IdentityFieldValue};
use crate::message::{ExternalMessage, MessageModel, MessagePart};
use crate::text;
use rand::Rng;
use vstd::prelude::*;
use vstd::std_specs::convert::FromSpecImpl;

verus! {

/// `rand::Rng::gen` draws sixteen bytes from the generator of the thread that
/// `rand::thread_rng` gives. The bytes rest on chance, so nothing is stated
/// of them.
#[verifier::external_body]
fn random_bytes() -> (bytes: [u8; 16]) {
    rand::thread_rng().gen()
}

/// The code that a message must hold to verify a field.
#[derive(Debug, PartialEq, Eq)]
pub struct ExpectedMessage {
    pub value: String,
    pub is_verified: bool,
}

/// What an [`ExpectedMessage`] holds.
pub struct ExpectedModel {
    pub value: Seq<char>,
    pub is_verified: bool,
}

impl ExpectedModel {
    /// Whether the code is sixteen bytes in hexadecimal digits and not yet
    /// verified.
    pub open spec fn is_fresh(self) -> bool {
        &&& !self.is_verified
        &&& exists|bytes: Seq<u8>|
            bytes.len() == 16 && #[trigger] hex_text::encoded(bytes) == self.value
    }

    /// Whether a part of the message holds the code.
    pub open spec fn answered_by(self, message: MessageModel) -> bool {
        exists|i: int|
            0 <= i < message.values.len() && text::occurs(self.value, #[trigger] message.values[i])
    }
}

impl View for ExpectedMessage {
    type V = ExpectedModel;

    open spec fn view(&self) -> ExpectedModel {
        ExpectedModel { value: self.value@, is_verified: self.is_verified }
    }
}

impl Clone for ExpectedMessage {
    fn clone(&self) -> (copy: Self)
        ensures
            copy@ == self@,
    {
        ExpectedMessage { value: self.value.clone(), is_verified: self.is_verified }
    }
}

impl ExpectedMessage {
    /// The code that the bytes give, not yet verified.
    pub fn from_bytes(bytes: [u8; 16]) -> (expected: Self)
        ensures
            expected@.value == hex_text::encoded(bytes@),
            !expected@.is_verified,
            expected@.is_fresh(),
    {
        ExpectedMessage { value: hex_text::encode(&bytes), is_verified: false }
    }

    /// A code of random bytes, not yet verified. Which bytes it is made of
    /// rests on chance.
    pub fn random() -> (expected: Self)
        ensures
            expected@.is_fresh(),
    {
        Self::from_bytes(random_bytes())
    }

    /// Whether a part of the message holds the code.
    pub fn is_message_valid(&self, message: &ExternalMessage) -> (valid: bool)
        ensures
            valid == self@.answered_by(message@),
    {
        let mut i: usize = 0;
        while i < message.values.len()
            invariant
                i <= message.values@.len(),
                forall|j: int|
                    0 <= j < i ==> !text::occurs(self.value@, #[trigger] message@.values[j]),
            decreases message.values@.len() - i,
        {
            if text::contains(message.values[i].0.as_str(), self.value.as_str()) {
                assert(text::occurs(self@.value, message@.values[i as int]));
                return true;
            }
            i += 1;
        }
        false
    }

    /// Marks the code as verified.
    pub fn set_verified(&mut self)
        ensures
            final(self)@ == (ExpectedModel { is_verified: true, ..old(self)@ }),
    {
        self.is_verified = true;
    }

    /// The parts of a message that is the code alone.
    pub fn to_message_parts(&self) -> (parts: Vec<MessagePart>)
        ensures
            parts@.len() == 1,
            parts@[0]@ == self@.value,
    {
        let mut parts: Vec<MessagePart> = Vec::new();
        parts.push(MessagePart::from(self.value.clone()));
        parts
    }
}

impl From<ExpectedMessage> for () {
    fn from(_expected: ExpectedMessage) -> (nothing: Self) {
    }
}

impl FromSpecImpl<ExpectedMessage> for () {
    open spec fn obeys_from_spec() -> bool {
        true
    }

    open spec fn from_spec(_expected: ExpectedMessage) -> () {
        ()
    }
}

/// How a field is verified, and how far that has come.
#[derive(Debug, PartialEq, Eq)]
pub enum ChallengeType {
    ExpectedMessage { expected: ExpectedMessage, second: Option<ExpectedMessage> },
    DisplayNameCheck { passed: bool, violations: Vec<DisplayNameEntry> },
    /// Verified by hand only.
    Unsupported { is_verified: Option<bool> },
}

/// What a [`ChallengeType`] holds.
#[verifier::ext_equal]
pub enum ChallengeModel {
    ExpectedMessage { expected: ExpectedModel, second: Option<ExpectedModel> },
    DisplayNameCheck { passed: bool, violations: Seq<NameEntryModel> },
    Unsupported { is_verified: Option<bool> },
}

impl ChallengeModel {
    /// Whether the challenge has been met: each code verified, the name check
    /// passed, or a positive verdict by hand.
    pub open spec fn verified(self) -> bool {
        match self {
            ChallengeModel::ExpectedMessage { expected, second } => {
                &&& expected.is_verified
                &&& second matches Some(code) ==> code.is_verified
            },
            ChallengeModel::DisplayNameCheck { passed, .. } => passed,
            ChallengeModel::Unsupported { is_verified } => is_verified == Some(true),
        }
    }
}

impl View for ChallengeType {
    type V = ChallengeModel;

    open spec fn view(&self) -> ChallengeModel {
        match self {
            ChallengeType::ExpectedMessage { expected, second } => ChallengeModel::ExpectedMessage {
                expected: expected@,
                second: match second {
                    Some(code) => Some(code@),
                    None => None,
                },
            },
            ChallengeType::DisplayNameCheck { passed, violations } =>
                ChallengeModel::DisplayNameCheck {
                passed: *passed,
                violations: violations@.map_values(|entry: DisplayNameEntry| entry@),
            },
            ChallengeType::Unsupported { is_verified } => ChallengeModel::Unsupported {
                is_verified: *is_verified,
            },
        }
    }
}

impl ChallengeType {
    /// Whether the challenge has been met.
    pub fn is_verified(&self) -> (verified: bool)
        ensures
            verified == self@.verified(),
    {
        match self {
            ChallengeType::ExpectedMessage { expected, second } => {
                if let Some(second) = second {
                    expected.is_verified && second.is_verified
                } else {
                    expected.is_verified
                }
            },
            ChallengeType::DisplayNameCheck { passed, violations: _ } => *passed,
            ChallengeType::Unsupported { is_verified } => match is_verified {
                Some(verdict) => *verdict,
                None => false,
            },
        }
    }
}

impl Clone for ChallengeType {
    fn clone(&self) -> (copy: Self)
        ensures
            copy@ == self@,
    {
        match self {
            ChallengeType::ExpectedMessage { expected, second } => ChallengeType::ExpectedMessage {
                expected: expected.clone(),
                second: match second {
                    Some(code) => Some(code.clone()),
                    None => None,
                },
            },
            ChallengeType::DisplayNameCheck { passed, violations } => {
                let copies = violations.clone();
                assert(copies@.map_values(|entry: DisplayNameEntry| entry@)
                    =~= violations@.map_values(|entry: DisplayNameEntry| entry@));
                ChallengeType::DisplayNameCheck { passed: *passed, violations: copies }
            },
            ChallengeType::Unsupported { is_verified } => ChallengeType::Unsupported {
                is_verified: *is_verified,
            },
        }
    }
}

/// A field of an identity with its challenge.
#[derive(Debug, PartialEq, Eq)]
pub struct IdentityField {
    pub value: IdentityFieldValue,
    pub challenge: ChallengeType,
    pub failed_attempts: usize,
}

/// What an [`IdentityField`] holds.
#[verifier::ext_equal]
pub struct FieldModel {
    pub value: FieldValueModel,
    pub challenge: ChallengeModel,
    pub failed_attempts: usize,
}

impl FieldModel {
    /// The field of the value before any attempt, with the codes for its
    /// challenge. Email takes both codes, Twitter and Matrix the first alone;
    /// a display name is checked against others, and the rest is verified by
    /// hand only.
    pub open spec fn opened(
        value: FieldValueModel,
        expected: ExpectedModel,
        second: ExpectedModel,
    ) -> FieldModel {
        FieldModel {
            value,
            challenge: match value {
                FieldValueModel::Email(_) => ChallengeModel::ExpectedMessage {
                    expected,
                    second: Some(second),
                },
                FieldValueModel::Twitter(_) => ChallengeModel::ExpectedMessage {
                    expected,
                    second: None,
                },
                FieldValueModel::Matrix(_) => ChallengeModel::ExpectedMessage {
                    expected,
                    second: None,
                },
                FieldValueModel::DisplayName(_) => ChallengeModel::DisplayNameCheck {
                    passed: false,
                    violations: Seq::empty(),
                },
                _ => ChallengeModel::Unsupported { is_verified: None },
            },
            failed_attempts: 0,
        }
    }

    /// Whether this is the field of the value before any attempt, with fresh
    /// codes.
    pub open spec fn is_fresh(self, value: FieldValueModel) -> bool {
        exists|expected: ExpectedModel, second: ExpectedModel|
            {
                &&& expected.is_fresh()
                &&& second.is_fresh()
                &&& self == #[trigger] FieldModel::opened(value, expected, second)
            }
    }
}

impl View for IdentityField {
    type V = FieldModel;

    open spec fn view(&self) -> FieldModel {
        FieldModel {
            value: self.value@,
            challenge: self.challenge@,
            failed_attempts: self.failed_attempts,
        }
    }
}

impl Clone for IdentityField {
    fn clone(&self) -> (copy: Self)
        ensures
            copy@ == self@,
    {
        IdentityField {
            value: self.value.clone(),
            challenge: self.challenge.clone(),
            failed_attempts: self.failed_attempts,
        }
    }
}

impl IdentityField {
    /// The field of the value before any attempt, with the given codes for
    /// its challenge. A code that the challenge has no use for is dropped.
    pub fn with_codes(
        val: IdentityFieldValue,
        expected: ExpectedMessage,
        second: ExpectedMessage,
    ) -> (field: Self)
        ensures
            field@ == FieldModel::opened(val@, expected@, second@),
    {
        let challenge = match val {
            IdentityFieldValue::LegalName(_) => ChallengeType::Unsupported { is_verified: None },
            IdentityFieldValue::Web(_) => ChallengeType::Unsupported { is_verified: None },
            IdentityFieldValue::PGPFingerprint(_) => ChallengeType::Unsupported {
                is_verified: None,
            },
            IdentityFieldValue::Image(_) => ChallengeType::Unsupported { is_verified: None },
            IdentityFieldValue::Additional(_) => ChallengeType::Unsupported { is_verified: None },
            IdentityFieldValue::DisplayName(_) => {
                let violations: Vec<DisplayNameEntry> = Vec::new();
                assert(violations@.map_values(|entry: DisplayNameEntry| entry@)
                    =~= Seq::<NameEntryModel>::empty());
                ChallengeType::DisplayNameCheck { passed: false, violations }
            },
            IdentityFieldValue::Email(_) => ChallengeType::ExpectedMessage {
                expected,
                second: Some(second),
            },
            IdentityFieldValue::Twitter(_) => ChallengeType::ExpectedMessage {
                expected,
                second: None,
            },
            IdentityFieldValue::Matrix(_) => ChallengeType::ExpectedMessage {
                expected,
                second: None,
            },
        };
        IdentityField { value: val, challenge, failed_attempts: 0 }
    }

    /// The field of the value before any attempt, with random codes.
    pub fn new(val: IdentityFieldValue) -> (field: Self)
        ensures
            field@.is_fresh(val@),
    {
        let expected = ExpectedMessage::random();
        let second = ExpectedMessage::random();
        let field = Self::with_codes(val, expected, second);
        assert(field@ == FieldModel::opened(val@, expected@, second@));
        field
    }
}

/// A new field is not verified, whatever its value.
pub proof fn law_fresh_field_is_unverified(field: FieldModel, value: FieldValueModel)
    requires
        field.is_fresh(value),
    ensures
        !field.challenge.verified(),
        field.value == value,
        field.failed_attempts == 0,
{
}

/// A message that is made of the code alone answers it.
pub proof fn law_code_answers_itself(expected: ExpectedModel, message: MessageModel)
    requires
        message.values == seq![expected.value],
    ensures
        expected.answered_by(message),
{
    let part = message.values[0];
    assert(part.subrange(0, 0 + expected.value.len() as int) =~= expected.value);
    assert(text::occurs(expected.value, part));
}

/// More text around the code does not keep a message from answering it.
pub proof fn law_code_is_found_within(
    expected: ExpectedModel,
    message: MessageModel,
    part: int,
    before: Seq<char>,
    after: Seq<char>,
)
    requires
        0 <= part < message.values.len(),
        message.values[part] == before + expected.value + after,
    ensures
        expected.answered_by(message),
{
    let whole = message.values[part];
    let at = before.len() as int;
    assert(whole.subrange(at, at + expected.value.len()) =~= expected.value);
    assert(text::occurs(expected.value, whole));
}

/// A field with a second code is verified only when both of its codes are.
pub proof fn law_second_code_is_needed(expected: ExpectedModel, second: ExpectedModel)
    ensures
        (ChallengeModel::ExpectedMessage { expected, second: Some(second) }).verified() <==> (
        expected.is_verified && second.is_verified),
{
}

/// A message answers a code exactly when one of its parts holds the code,
/// whatever stands before and after it.
pub proof fn law_answer_holds_the_code(expected: ExpectedModel, message: MessageModel)
    ensures
        expected.answered_by(message) <==> exists|i: int, before: Seq<char>, after: Seq<char>|
            0 <= i < message.values.len() && #[trigger] message.values[i] == #[trigger] (before
                + expected.value + after),
{
    if expected.answered_by(message) {
        let i = choose|i: int|
            0 <= i < message.values.len() && text::occurs(
                expected.value,
                #[trigger] message.values[i],
            );
        text::law_occurrence_stands_within(expected.value, message.values[i]);
        let (before, after) = choose|before: Seq<char>, after: Seq<char>|
            message.values[i] == #[trigger] (before + expected.value + after);
        assert(message.values[i] == before + expected.value + after);
    }
    if exists|i: int, before: Seq<char>, after: Seq<char>|
        0 <= i < message.values.len() && #[trigger] message.values[i] == #[trigger] (before
            + expected.value + after) {
        let (i, before, after) = choose|i: int, before: Seq<char>, after: Seq<char>|
            0 <= i < message.values.len() && #[trigger] message.values[i] == #[trigger] (before
                + expected.value + after);
        law_code_is_found_within(expected, message, i, before, after);
    }
}

/// A new code is not verified and has thirty-two digits, all of them digits
/// or small letters up to `f`.
pub proof fn law_fresh_code_is_hexadecimal(expected: ExpectedModel)
    requires
        expected.is_fresh(),
    ensures
        !expected.is_verified,
        expected.value.len() == 32,
        forall|i: int|
            0 <= i < 32 ==> '0' <= #[trigger] expected.value[i] <= '9' || 'a' <= expected.value[i]
                <= 'f',
{
    let bytes = choose|bytes: Seq<u8>|
        bytes.len() == 16 && #[trigger] hex_text::encoded(bytes) == expected.value;
    assert forall|i: int| 0 <= i < 32 implies '0' <= #[trigger] expected.value[i] <= '9' || 'a'
        <= expected.value[i] <= 'f' by {
        assert(expected.value[i] == hex_text::encoded(bytes)[i]);
        assert(0 <= i < 2 * bytes.len());
    }
}

/// A challenge is met when all of its codes are verified, when the name has
/// passed, or when it was approved by hand, and not otherwise.
pub proof fn law_challenge_is_met_by_all_of_it(
    expected: ExpectedModel,
    second: ExpectedModel,
    passed: bool,
    violations: Seq<NameEntryModel>,
)
    ensures
        (ChallengeModel::ExpectedMessage { expected, second: None }).verified()
            == expected.is_verified,
        (ChallengeModel::ExpectedMessage { expected, second: Some(second) }).verified() == (
        expected.is_verified && second.is_verified),
        (ChallengeModel::DisplayNameCheck { passed, violations }).verified() == passed,
        (ChallengeModel::Unsupported { is_verified: Some(passed) }).verified() == passed,
        !(ChallengeModel::Unsupported { is_verified: None }).verified(),
{
}

/// A new field keeps its value and has no failed attempt. An email address
/// has two new codes to answer, a Twitter or Matrix account one; a display
/// name is to be checked, with no violation yet; any other field is to be
/// approved by hand.
pub proof fn law_fresh_field_has_its_challenge(field: FieldModel, value: FieldValueModel)
    requires
        field.is_fresh(value),
    ensures
        field.value == value,
        field.failed_attempts == 0,
        value is Email ==> (field.challenge matches ChallengeModel::ExpectedMessage {
            expected,
            second: Some(second),
        } && expected.is_fresh() && second.is_fresh()),
        value is Twitter || value is Matrix ==> (field.challenge matches
            ChallengeModel::ExpectedMessage { expected, second: None } && expected.is_fresh()),
        value is DisplayName ==> field.challenge == (ChallengeModel::DisplayNameCheck {
            passed: false,
            violations: Seq::empty(),
        }),
        value is LegalName || value is Web || value is PGPFingerprint || value is Image || value
            is Additional ==> field.challenge == (ChallengeModel::Unsupported {
            is_verified: None,
        }),
{
}

/// A field keeps the codes that it is opened with: the first one wherever it
/// has one, the second one for an email address.
pub proof fn law_field_keeps_its_codes(
    value: FieldValueModel,
    expected: ExpectedModel,
    second: ExpectedModel,
)
    ensures
        value is Email ==> FieldModel::opened(value, expected, second).challenge == (
        ChallengeModel::ExpectedMessage { expected, second: Some(second) }),
        value is Twitter || value is Matrix ==> FieldModel::opened(
            value,
            expected,
            second,
        ).challenge == (ChallengeModel::ExpectedMessage { expected, second: None }),
{
}

} // verus!
