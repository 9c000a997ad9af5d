//! The state of a judgement request: what the identity claims and how much of
//! it is verified.
use crate::challenge::{
    ChallengeModel, ChallengeType, ExpectedMessage, ExpectedModel, FieldModel, IdentityField,
};
use crate::display_name::{DisplayNameEntry, NameEntryModel};
use crate::identity::{
    AccountType, Accounts, ContextModel, FieldValueModel, IdentityContext, IdentityFieldValue,
};
use crate::text;
use crate::time::Timestamp;
use vstd::prelude::*;
use vstd::std_specs::convert::FromSpecImpl;

verus! {

/// The state of the judgement request of one identity.
#[derive(Debug, PartialEq, Eq)]
pub struct JudgementState {
    pub context: IdentityContext,
    pub is_fully_verified: bool,
    pub inserted_timestamp: Timestamp,
    pub completion_timestamp: Option<Timestamp>,
    pub judgement_submitted: bool,
    pub issue_judgement_at: Option<Timestamp>,
    pub fields: Vec<IdentityField>,
}

/// What a [`JudgementState`] holds.
#[verifier::ext_equal]
pub struct StateModel {
    pub context: ContextModel,
    pub is_fully_verified: bool,
    pub inserted_timestamp: Timestamp,
    pub completion_timestamp: Option<Timestamp>,
    pub judgement_submitted: bool,
    pub issue_judgement_at: Option<Timestamp>,
    pub fields: Seq<FieldModel>,
}

/// What each field of a list holds.
pub open spec fn field_models(fields: Seq<IdentityField>) -> Seq<FieldModel> {
    fields.map_values(|field: IdentityField| field@)
}

/// What each value of a list holds.
pub open spec fn value_models(values: Seq<IdentityFieldValue>) -> Seq<FieldValueModel> {
    values.map_values(|value: IdentityFieldValue| value@)
}

/// Whether there are as many fields as accounts and each account has a field
/// that matches it.
pub open spec fn same_fields(
    fields: Seq<FieldModel>,
    accounts: Seq<(AccountType, Seq<char>)>,
) -> bool {
    &&& fields.len() == accounts.len()
    &&& forall|a: int| 0 <= a < accounts.len() ==> has_match(fields, #[trigger] accounts[a])
}

/// Whether a field matches the account.
pub open spec fn has_match(fields: Seq<FieldModel>, account: (AccountType, Seq<char>)) -> bool {
    exists|f: int|
        0 <= f < fields.len() && (#[trigger] fields[f]).value.matches(account.0, account.1)
}

/// Whether one of the accounts matches the field.
pub open spec fn is_claimed(
    field: FieldValueModel,
    accounts: Seq<(AccountType, Seq<char>)>,
) -> bool {
    exists|a: int|
        0 <= a < accounts.len() && field.matches((#[trigger] accounts[a]).0, accounts[a].1)
}

/// The first display name among the fields; `None` where there is none.
pub open spec fn first_display_name(fields: Seq<FieldModel>) -> Option<Seq<char>>
    decreases fields.len(),
{
    if fields.len() == 0 {
        None
    } else if fields[0].value is DisplayName {
        Some(fields[0].value->DisplayName_0)
    } else {
        first_display_name(fields.drop_first())
    }
}

impl StateModel {
    /// The state of a request that came in at the given time.
    pub open spec fn opened(
        context: ContextModel,
        fields: Seq<FieldModel>,
        inserted: Timestamp,
    ) -> StateModel {
        StateModel {
            context,
            is_fully_verified: false,
            inserted_timestamp: inserted,
            completion_timestamp: None,
            judgement_submitted: false,
            issue_judgement_at: None,
            fields,
        }
    }

    /// Whether this is the state of a new request for the values: nothing is
    /// verified, and each value has a field with fresh codes, in order.
    pub open spec fn is_fresh(self, context: ContextModel, values: Seq<FieldValueModel>) -> bool {
        &&& self == StateModel::opened(context, self.fields, self.inserted_timestamp)
        &&& self.fields.len() == values.len()
        &&& forall|i: int|
            0 <= i < values.len() ==> (#[trigger] self.fields[i]).is_fresh(values[i])
    }

    /// Whether the challenge of every field has been met.
    pub open spec fn all_verified(self) -> bool {
        forall|i: int| 0 <= i < self.fields.len() ==> (#[trigger] self.fields[i]).challenge.verified()
    }

    /// The accounts of the fields, in order.
    pub open spec fn accounts(self) -> Seq<(AccountType, Seq<char>)> {
        self.fields.map_values(
            |field: FieldModel| (field.value.account_type(), field.value.value()),
        )
    }

    /// The state as it is shown to users.
    pub open spec fn blanked(self) -> BlankedStateModel {
        BlankedStateModel {
            context: self.context,
            is_fully_verified: self.is_fully_verified,
            inserted_timestamp: self.inserted_timestamp,
            completion_timestamp: self.completion_timestamp,
            judgement_submitted: self.judgement_submitted,
            fields: self.fields.map_values(|field: FieldModel| field.blanked()),
        }
    }

    /// Whether two states differ at most in the second codes of their fields,
    /// not in whether those are verified, and in when the judgement is due.
    pub open spec fn same_but_second_codes(self, other: StateModel) -> bool {
        &&& other == StateModel {
            issue_judgement_at: other.issue_judgement_at,
            fields: other.fields,
            ..self
        }
        &&& self.fields.len() == other.fields.len()
        &&& forall|i: int|
            0 <= i < self.fields.len() ==> (#[trigger] self.fields[i]).same_but_second_code(
                other.fields[i],
            )
    }
}

impl FieldModel {
    /// The field as it is shown to users.
    pub open spec fn blanked(self) -> BlankedFieldModel {
        BlankedFieldModel {
            value: self.value,
            challenge: match self.challenge {
                ChallengeModel::ExpectedMessage { expected, second } =>
                    BlankedChallengeModel::ExpectedMessage {
                    expected,
                    second: match second {
                        Some(code) => Some(
                            ExpectedMessageBlanked { is_verified: code.is_verified },
                        ),
                        None => None,
                    },
                },
                ChallengeModel::DisplayNameCheck { passed, violations } =>
                    BlankedChallengeModel::DisplayNameCheck { passed, violations },
                ChallengeModel::Unsupported { is_verified } => BlankedChallengeModel::Unsupported {
                    is_verified,
                },
            },
            failed_attempts: self.failed_attempts,
        }
    }

    /// Whether two fields differ at most in the second code, not in whether
    /// that is verified.
    pub open spec fn same_but_second_code(self, other: FieldModel) -> bool {
        &&& self.value == other.value
        &&& self.failed_attempts == other.failed_attempts
        &&& match (self.challenge, other.challenge) {
            (
                ChallengeModel::ExpectedMessage { expected, second: Some(code) },
                ChallengeModel::ExpectedMessage { expected: other_expected, second: Some(other_code) },
            ) => expected == other_expected && code.is_verified == other_code.is_verified,
            _ => self.challenge == other.challenge,
        }
    }
}

impl View for JudgementState {
    type V = StateModel;

    open spec fn view(&self) -> StateModel {
        StateModel {
            context: self.context@,
            is_fully_verified: self.is_fully_verified,
            inserted_timestamp: self.inserted_timestamp,
            completion_timestamp: self.completion_timestamp,
            judgement_submitted: self.judgement_submitted,
            issue_judgement_at: self.issue_judgement_at,
            fields: field_models(self.fields@),
        }
    }
}

impl Clone for JudgementState {
    fn clone(&self) -> (copy: Self)
        ensures
            copy@ == self@,
    {
        let fields = self.fields.clone();
        assert(field_models(fields@) =~= field_models(self.fields@));
        JudgementState {
            context: self.context.clone(),
            is_fully_verified: self.is_fully_verified,
            inserted_timestamp: self.inserted_timestamp,
            completion_timestamp: self.completion_timestamp,
            judgement_submitted: self.judgement_submitted,
            issue_judgement_at: self.issue_judgement_at,
            fields,
        }
    }
}

/// An account whose value the registrar vouches for.
#[derive(Debug)]
pub struct VerifiedEntry {
    pub account_ty: AccountType,
    pub value: String,
}

impl View for VerifiedEntry {
    type V = (AccountType, Seq<char>);

    open spec fn view(&self) -> (AccountType, Seq<char>) {
        (self.account_ty, self.value@)
    }
}

impl Clone for VerifiedEntry {
    fn clone(&self) -> (copy: Self)
        ensures
            copy@ == self@,
    {
        VerifiedEntry { account_ty: self.account_ty, value: self.value.clone() }
    }
}

impl JudgementState {
    /// The state of a request with the fields that came in at the given time.
    pub fn opened(context: IdentityContext, fields: Vec<IdentityField>, inserted: Timestamp) -> (state:
        Self)
        ensures
            state@ == StateModel::opened(context@, field_models(fields@), inserted),
    {
        JudgementState {
            context,
            is_fully_verified: false,
            inserted_timestamp: inserted,
            completion_timestamp: None,
            judgement_submitted: false,
            issue_judgement_at: None,
            fields,
        }
    }

    /// The state of a request for the values that comes in now, with random
    /// codes.
    pub fn new(context: IdentityContext, fields: Vec<IdentityFieldValue>) -> (state: Self)
        ensures
            state@.is_fresh(context@, value_models(fields@)),
    {
        let ghost values = fields@;
        let mut opened: Vec<IdentityField> = Vec::new();
        for value in it: fields
            invariant
                it.seq() == values,
                opened@.len() == it.index(),
                forall|i: int|
                    0 <= i < opened@.len() ==> (#[trigger] opened@[i])@.is_fresh(values[i]@),
        {
            opened.push(IdentityField::new(value));
        }
        let state = Self::opened(context, opened, Timestamp::now());
        assert forall|i: int| 0 <= i < values.len() implies (
        #[trigger] state@.fields[i]).is_fresh(value_models(values)[i]) by {
            assert(opened@[i]@.is_fresh(values[i]@));
        }
        state
    }

    /// Whether the challenge of every field has been met.
    pub fn check_full_verification(&self) -> (verified: bool)
        ensures
            verified == self@.all_verified(),
    {
        let mut i: usize = 0;
        while i < self.fields.len()
            invariant
                i <= self.fields@.len(),
                forall|j: int| 0 <= j < i ==> (#[trigger] self@.fields[j]).challenge.verified(),
            decreases self.fields@.len() - i,
        {
            if !self.fields[i].challenge.is_verified() {
                assert(!self@.fields[i as int].challenge.verified());
                return false;
            }
            i += 1;
        }
        true
    }

    /// The display name that the identity claims; the first one, should there
    /// be several.
    pub fn display_name(&self) -> (name: Option<&str>)
        ensures
            match name {
                Some(n) => first_display_name(self@.fields) == Some(n@),
                None => first_display_name(self@.fields) is None,
            },
    {
        let mut i: usize = 0;
        assert(self@.fields.skip(0) =~= self@.fields);
        while i < self.fields.len()
            invariant
                i <= self.fields@.len(),
                first_display_name(self@.fields) == first_display_name(self@.fields.skip(i as int)),
            decreases self.fields@.len() - i,
        {
            assert(self@.fields.skip(i as int)[0] == self.fields@[i as int]@);
            if let IdentityFieldValue::DisplayName(name) = &self.fields[i].value {
                return Some(name.as_str());
            }
            assert(self@.fields.skip(i as int).drop_first() =~= self@.fields.skip(i + 1));
            i += 1;
        }
        None
    }

    /// Whether the fields of the state are those of the accounts.
    pub fn has_same_fields_as(&self, other: &Accounts) -> (same: bool)
        ensures
            same == same_fields(self@.fields, other@),
    {
        if other.len() != self.fields.len() {
            return false;
        }
        let entries = other.entries();
        let mut a: usize = 0;
        while a < entries.len()
            invariant
                a <= entries@.len(),
                entries@.map_values(|entry: (AccountType, String)| (entry.0, entry.1@)) == other@,
                forall|b: int| 0 <= b < a ==> has_match(self@.fields, #[trigger] other@[b]),
            decreases entries@.len() - a,
        {
            let mut found: bool = false;
            let mut f: usize = 0;
            assert(other@[a as int] == (entries@[a as int].0, entries@[a as int].1@));
            while f < self.fields.len() && !found
                invariant
                    a < entries@.len(),
                    f <= self.fields@.len(),
                    other@[a as int] == (entries@[a as int].0, entries@[a as int].1@),
                    found ==> has_match(self@.fields, other@[a as int]),
                    !found ==> forall|g: int|
                        0 <= g < f ==> !(#[trigger] self@.fields[g]).value.matches(
                            other@[a as int].0,
                            other@[a as int].1,
                        ),
                decreases self.fields@.len() - f, !found as int,
            {
                if self.fields[f].value.matches_type(&entries[a].0, entries[a].1.as_str()) {
                    assert(self@.fields[f as int].value.matches(
                        other@[a as int].0,
                        other@[a as int].1,
                    ));
                    found = true;
                }
                f += 1;
            }
            if !found {
                return false;
            }
            a += 1;
        }
        true
    }

    /// The accounts of the fields, in order.
    pub fn as_verified_entries(&self) -> (entries: Vec<VerifiedEntry>)
        ensures
            entries@.map_values(|entry: VerifiedEntry| entry@) == self@.accounts(),
    {
        let mut list: Vec<VerifiedEntry> = Vec::new();
        let mut i: usize = 0;
        while i < self.fields.len()
            invariant
                i <= self.fields@.len(),
                list@.map_values(|entry: VerifiedEntry| entry@) == self@.accounts().take(i as int),
            decreases self.fields@.len() - i,
        {
            let ghost before = list@;
            let (account_ty, value) = self.fields[i].value.as_account_type();
            list.push(VerifiedEntry { account_ty, value });
            assert(list@.map_values(|entry: VerifiedEntry| entry@) =~= before.map_values(
                |entry: VerifiedEntry| entry@,
            ).push((account_ty, value@)));
            i += 1;
        }
        assert(self@.accounts().take(i as int) =~= self@.accounts());
        list
    }
}

/// The state of a request as it is shown to users: without the second codes.
#[derive(Debug, PartialEq, Eq)]
pub struct JudgementStateBlanked {
    pub context: IdentityContext,
    pub is_fully_verified: bool,
    pub inserted_timestamp: Timestamp,
    pub completion_timestamp: Option<Timestamp>,
    pub judgement_submitted: bool,
    pub fields: Vec<IdentityFieldBlanked>,
}

/// What a [`JudgementStateBlanked`] holds.
#[verifier::ext_equal]
pub struct BlankedStateModel {
    pub context: ContextModel,
    pub is_fully_verified: bool,
    pub inserted_timestamp: Timestamp,
    pub completion_timestamp: Option<Timestamp>,
    pub judgement_submitted: bool,
    pub fields: Seq<BlankedFieldModel>,
}

impl View for JudgementStateBlanked {
    type V = BlankedStateModel;

    open spec fn view(&self) -> BlankedStateModel {
        BlankedStateModel {
            context: self.context@,
            is_fully_verified: self.is_fully_verified,
            inserted_timestamp: self.inserted_timestamp,
            completion_timestamp: self.completion_timestamp,
            judgement_submitted: self.judgement_submitted,
            fields: self.fields@.map_values(|field: IdentityFieldBlanked| field@),
        }
    }
}

impl Clone for JudgementStateBlanked {
    fn clone(&self) -> (copy: Self)
        ensures
            copy@ == self@,
    {
        let fields = self.fields.clone();
        assert(fields@.map_values(|field: IdentityFieldBlanked| field@)
            =~= self.fields@.map_values(|field: IdentityFieldBlanked| field@));
        JudgementStateBlanked {
            context: self.context.clone(),
            is_fully_verified: self.is_fully_verified,
            inserted_timestamp: self.inserted_timestamp,
            completion_timestamp: self.completion_timestamp,
            judgement_submitted: self.judgement_submitted,
            fields,
        }
    }
}

/// A field as it is shown to users.
#[derive(Debug, PartialEq, Eq)]
pub struct IdentityFieldBlanked {
    pub value: IdentityFieldValue,
    pub challenge: ChallengeTypeBlanked,
    pub failed_attempts: usize,
}

/// What an [`IdentityFieldBlanked`] holds.
pub struct BlankedFieldModel {
    pub value: FieldValueModel,
    pub challenge: BlankedChallengeModel,
    pub failed_attempts: usize,
}

impl View for IdentityFieldBlanked {
    type V = BlankedFieldModel;

    open spec fn view(&self) -> BlankedFieldModel {
        BlankedFieldModel {
            value: self.value@,
            challenge: self.challenge@,
            failed_attempts: self.failed_attempts,
        }
    }
}

impl Clone for IdentityFieldBlanked {
    fn clone(&self) -> (copy: Self)
        ensures
            copy@ == self@,
    {
        IdentityFieldBlanked {
            value: self.value.clone(),
            challenge: self.challenge.clone(),
            failed_attempts: self.failed_attempts,
        }
    }
}

/// A challenge as it is shown to users.
#[derive(Debug, PartialEq, Eq)]
pub enum ChallengeTypeBlanked {
    ExpectedMessage { expected: ExpectedMessage, second: Option<ExpectedMessageBlanked> },
    DisplayNameCheck { passed: bool, violations: Vec<DisplayNameEntry> },
    /// Verified by hand only.
    Unsupported { is_verified: Option<bool> },
}

/// What a [`ChallengeTypeBlanked`] holds.
pub enum BlankedChallengeModel {
    ExpectedMessage { expected: ExpectedModel, second: Option<ExpectedMessageBlanked> },
    DisplayNameCheck { passed: bool, violations: Seq<NameEntryModel> },
    Unsupported { is_verified: Option<bool> },
}

impl BlankedChallengeModel {
    /// Whether the challenge that is shown has been met.
    pub open spec fn verified(self) -> bool {
        match self {
            BlankedChallengeModel::ExpectedMessage { expected, second } => {
                &&& expected.is_verified
                &&& second matches Some(code) ==> code.is_verified
            },
            BlankedChallengeModel::DisplayNameCheck { passed, .. } => passed,
            BlankedChallengeModel::Unsupported { is_verified } => is_verified == Some(true),
        }
    }
}

impl View for ChallengeTypeBlanked {
    type V = BlankedChallengeModel;

    open spec fn view(&self) -> BlankedChallengeModel {
        match self {
            ChallengeTypeBlanked::ExpectedMessage { expected, second } =>
                BlankedChallengeModel::ExpectedMessage { expected: expected@, second: *second },
            ChallengeTypeBlanked::DisplayNameCheck { passed, violations } =>
                BlankedChallengeModel::DisplayNameCheck {
                passed: *passed,
                violations: violations@.map_values(|entry: DisplayNameEntry| entry@),
            },
            ChallengeTypeBlanked::Unsupported { is_verified } =>
                BlankedChallengeModel::Unsupported { is_verified: *is_verified },
        }
    }
}

impl Clone for ChallengeTypeBlanked {
    fn clone(&self) -> (copy: Self)
        ensures
            copy@ == self@,
    {
        match self {
            ChallengeTypeBlanked::ExpectedMessage { expected, second } =>
                ChallengeTypeBlanked::ExpectedMessage {
                expected: expected.clone(),
                second: *second,
            },
            ChallengeTypeBlanked::DisplayNameCheck { passed, violations } => {
                let copies = violations.clone();
                assert(copies@.map_values(|entry: DisplayNameEntry| entry@)
                    =~= violations@.map_values(|entry: DisplayNameEntry| entry@));
                ChallengeTypeBlanked::DisplayNameCheck { passed: *passed, violations: copies }
            },
            ChallengeTypeBlanked::Unsupported { is_verified } =>
                ChallengeTypeBlanked::Unsupported { is_verified: *is_verified },
        }
    }
}

/// The second code as it is shown to users: without the code.
#[derive(Debug, Clone, Copy, PartialEq, Eq, Structural)]
pub struct ExpectedMessageBlanked {
    pub is_verified: bool,
}

impl From<JudgementState> for JudgementStateBlanked {
    fn from(s: JudgementState) -> (blanked: Self)
        ensures
            blanked@ == s@.blanked(),
    {
        let ghost all = s.fields@;
        let mut fields: Vec<IdentityFieldBlanked> = Vec::new();
        for field in it: s.fields
            invariant
                it.seq() == all,
                fields@.map_values(|f: IdentityFieldBlanked| f@) == field_models(all).map_values(
                    |f: FieldModel| f.blanked(),
                ).take(it.index() as int),
        {
            let ghost before = fields@;
            let challenge = match field.challenge {
                ChallengeType::ExpectedMessage { expected, second } =>
                    ChallengeTypeBlanked::ExpectedMessage {
                    expected,
                    second: match second {
                        Some(code) => Some(
                            ExpectedMessageBlanked { is_verified: code.is_verified },
                        ),
                        None => None,
                    },
                },
                ChallengeType::DisplayNameCheck { passed, violations } =>
                    ChallengeTypeBlanked::DisplayNameCheck { passed, violations },
                ChallengeType::Unsupported { is_verified } => ChallengeTypeBlanked::Unsupported {
                    is_verified,
                },
            };
            fields.push(
                IdentityFieldBlanked {
                    value: field.value,
                    challenge,
                    failed_attempts: field.failed_attempts,
                },
            );
            assert(fields@.map_values(|f: IdentityFieldBlanked| f@) =~= before.map_values(
                |f: IdentityFieldBlanked| f@,
            ).push(field@.blanked()));
        }
        JudgementStateBlanked {
            context: s.context,
            is_fully_verified: s.is_fully_verified,
            inserted_timestamp: s.inserted_timestamp,
            completion_timestamp: s.completion_timestamp,
            judgement_submitted: s.judgement_submitted,
            fields,
        }
    }
}

impl FromSpecImpl<JudgementState> for JudgementStateBlanked {
    open spec fn obeys_from_spec() -> bool {
        false
    }

    open spec fn from_spec(s: JudgementState) -> JudgementStateBlanked {
        arbitrary()
    }
}

/// What is shown of a state does not tell the second codes: states that
/// differ in nothing but those, and in when the judgement is due, look alike.
pub proof fn law_blanked_hides_second_codes(one: StateModel, other: StateModel)
    requires
        one.same_but_second_codes(other),
    ensures
        one.blanked() == other.blanked(),
{
    assert forall|i: int| 0 <= i < one.fields.len() implies (
    #[trigger] one.blanked().fields[i]) == other.blanked().fields[i] by {
        assert(one.fields[i].same_but_second_code(other.fields[i]));
    }
    assert(one.blanked().fields =~= other.blanked().fields);
}

/// What is shown of a field tells rightly whether the field is verified.
pub proof fn law_blanked_keeps_verification(field: FieldModel)
    ensures
        field.blanked().challenge.verified() == field.challenge.verified(),
{
}

/// A new state has none of its fields verified, so it is fully verified only
/// where it has no field.
pub proof fn law_fresh_state_is_unverified(
    state: StateModel,
    context: ContextModel,
    values: Seq<FieldValueModel>,
)
    requires
        state.is_fresh(context, values),
    ensures
        forall|i: int|
            0 <= i < values.len() ==> !(#[trigger] state.fields[i]).challenge.verified(),
        state.all_verified() <==> values.len() == 0,
{
    assert forall|i: int| 0 <= i < values.len() implies !(
    #[trigger] state.fields[i]).challenge.verified() by {
        assert(state.fields[i].is_fresh(values[i]));
    }
    if values.len() > 0 {
        assert(!state.fields[0].challenge.verified());
    }
}

/// Whether the fields of the state are those that the accounts become, in
/// order, however much of them is verified.
pub open spec fn is_state_of(state: StateModel, accounts: Seq<(AccountType, Seq<char>)>) -> bool {
    &&& state.fields.len() == accounts.len()
    &&& forall|i: int|
        0 <= i < accounts.len() ==> (#[trigger] state.fields[i]).value == FieldValueModel::of(
            accounts[i].0,
            accounts[i].1,
        )
}

/// The state that a request opens is made of the accounts of the request.
pub proof fn law_fresh_state_is_of_its_request(
    state: StateModel,
    context: ContextModel,
    accounts: Seq<(AccountType, Seq<char>)>,
)
    requires
        state.is_fresh(context, crate::identity::accounts_fields(accounts)),
    ensures
        is_state_of(state, accounts),
{
    let values = crate::identity::accounts_fields(accounts);
    assert forall|i: int| 0 <= i < accounts.len() implies (#[trigger] state.fields[i]).value
        == FieldValueModel::of(accounts[i].0, accounts[i].1) by {
        assert(state.fields[i].is_fresh(values[i]));
    }
}

/// A state that is made of the accounts of a request has the same fields as
/// the request, unless a Twitter handle has capitals, which its field keeps
/// in lower case.
pub proof fn law_state_matches_its_request(
    state: StateModel,
    accounts: Seq<(AccountType, Seq<char>)>,
)
    requires
        is_state_of(state, accounts),
        forall|a: int|
            0 <= a < accounts.len() && (#[trigger] accounts[a]).0 is Twitter ==> text::lowercase(
                accounts[a].1,
            ) == accounts[a].1,
    ensures
        same_fields(state.fields, accounts),
{
    assert forall|a: int| 0 <= a < accounts.len() implies has_match(
        state.fields,
        #[trigger] accounts[a],
    ) by {
        crate::identity::law_field_matches_source(accounts[a].0, accounts[a].1);
        assert(state.fields[a].value.matches(accounts[a].0, accounts[a].1));
    }
}

/// The field that matches the account with the given place.
spec fn matching_field(
    fields: Seq<FieldModel>,
    accounts: Seq<(AccountType, Seq<char>)>,
    a: int,
) -> int {
    choose|f: int|
        0 <= f < fields.len() && (#[trigger] fields[f]).value.matches(
            accounts[a].0,
            accounts[a].1,
        )
}

/// Where a state has the same fields as some accounts, each of its fields is
/// matched by one of them.
proof fn lemma_every_field_is_matched(
    fields: Seq<FieldModel>,
    accounts: Seq<(AccountType, Seq<char>)>,
    f: int,
)
    requires
        crate::identity::types_distinct(accounts),
        same_fields(fields, accounts),
        0 <= f < fields.len(),
    ensures
        is_claimed(fields[f].value, accounts),
{
    let n = fields.len();
    let places = Seq::new(n, |a: int| matching_field(fields, accounts, a));
    assert forall|a: int| 0 <= a < n implies 0 <= #[trigger] places[a] < n
        && fields[places[a]].value.matches(accounts[a].0, accounts[a].1) by {
        assert(has_match(fields, accounts[a]));
    }
    assert(places.no_duplicates()) by {
        assert forall|i: int, j: int| 0 <= i < n && 0 <= j < n && i != j implies places[i]
            != places[j] by {
            assert(accounts[i].0 != accounts[j].0);
        }
    }
    places.unique_seq_to_set();
    vstd::set_lib::lemma_int_range(0, n as int);
    let all = vstd::set_lib::set_int_range(0, n as int);
    assert(places.to_set().subset_of(all));
    vstd::set_lib::lemma_len_subset(places.to_set(), all);
    vstd::set_lib::lemma_subset_equality(places.to_set(), all);
    assert(places.to_set().contains(f));
    let a = choose|a: int| 0 <= a < n && places[a] == f;
    assert(fields[f].value.matches(accounts[a].0, accounts[a].1));
}

/// A request that is taken for a known one says what the request that opened
/// the state said: each account is there again, with the value that its
/// field keeps. So one that adds, drops or changes an account is never
/// passed over.
pub proof fn law_known_request_is_unchanged(
    state: StateModel,
    first: Seq<(AccountType, Seq<char>)>,
    again: Seq<(AccountType, Seq<char>)>,
)
    requires
        is_state_of(state, first),
        crate::identity::types_distinct(again),
        same_fields(state.fields, again),
    ensures
        again.len() == first.len(),
        forall|i: int|
            0 <= i < first.len() ==> is_claimed(
                FieldValueModel::of((#[trigger] first[i]).0, first[i].1),
                again,
            ),
{
    assert forall|i: int| 0 <= i < first.len() implies is_claimed(
        FieldValueModel::of((#[trigger] first[i]).0, first[i].1),
        again,
    ) by {
        lemma_every_field_is_matched(state.fields, again, i);
        assert(state.fields[i].value == FieldValueModel::of(first[i].0, first[i].1));
    }
}

/// A state has the same fields as the accounts that it gives out.
pub proof fn law_state_matches_its_accounts(state: StateModel)
    ensures
        same_fields(state.fields, state.accounts()),
{
    assert forall|a: int| 0 <= a < state.accounts().len() implies has_match(
        state.fields,
        #[trigger] state.accounts()[a],
    ) by {
        crate::identity::law_field_matches_its_account(state.fields[a].value);
        assert(state.fields[a].value.matches(state.accounts()[a].0, state.accounts()[a].1));
    }
}

/// A new state belongs to its identity, is neither verified, completed nor
/// judged, and has a new field for each value, in order.
pub proof fn law_fresh_state_is_open(
    state: StateModel,
    context: ContextModel,
    values: Seq<FieldValueModel>,
    i: int,
)
    requires
        state.is_fresh(context, values),
        0 <= i < values.len(),
    ensures
        state.context == context,
        !state.is_fully_verified,
        !state.judgement_submitted,
        state.completion_timestamp is None,
        state.issue_judgement_at is None,
        state.fields.len() == values.len(),
        state.fields[i].value == values[i],
        state.fields[i].failed_attempts == 0,
        !state.fields[i].challenge.verified(),
        values[i] is Email ==> (state.fields[i].challenge matches ChallengeModel::ExpectedMessage {
            second: Some(_),
            ..
        }),
{
    crate::challenge::law_fresh_field_has_its_challenge(state.fields[i], values[i]);
    crate::challenge::law_fresh_field_is_unverified(state.fields[i], values[i]);
}

/// A state that is opened holds what it is opened with, and is neither
/// verified, completed nor judged.
pub proof fn law_opened_state_holds_its_fields(
    context: ContextModel,
    fields: Seq<FieldModel>,
    inserted: Timestamp,
)
    ensures
        StateModel::opened(context, fields, inserted) == (StateModel {
            context,
            is_fully_verified: false,
            inserted_timestamp: inserted,
            completion_timestamp: None,
            judgement_submitted: false,
            issue_judgement_at: None,
            fields,
        }),
{
}

/// A state is verified as long as no field is left open: one open field is
/// enough to keep it from being so, and one more field changes nothing but by
/// whether it is verified itself.
pub proof fn law_one_open_field_keeps_a_state_open(state: StateModel, field: FieldModel, i: int)
    ensures
        0 <= i < state.fields.len() && !state.fields[i].challenge.verified()
            ==> !state.all_verified(),
        (StateModel { fields: Seq::empty(), ..state }).all_verified(),
        (StateModel { fields: state.fields.push(field), ..state }).all_verified() <==> (
        state.all_verified() && field.challenge.verified()),
{
    let more = StateModel { fields: state.fields.push(field), ..state };
    if more.all_verified() {
        assert forall|j: int| 0 <= j < state.fields.len() implies (
        #[trigger] state.fields[j]).challenge.verified() by {
            assert(more.fields[j].challenge.verified());
        }
        assert(more.fields[state.fields.len() as int].challenge.verified());
    }
}

/// The display name of a state is that of its first field of the kind, and
/// there is none exactly where no field is of the kind.
pub proof fn law_first_display_name_is_told(fields: Seq<FieldModel>, i: int)
    requires
        0 <= i <= fields.len(),
        forall|j: int| 0 <= j < i ==> !((#[trigger] fields[j]).value is DisplayName),
        i < fields.len() ==> fields[i].value is DisplayName,
    ensures
        i < fields.len() ==> (first_display_name(fields) matches Some(name) && fields[i].value
            == FieldValueModel::DisplayName(name)),
        i == fields.len() ==> first_display_name(fields) is None,
    decreases fields.len(),
{
    if i > 0 {
        let rest = fields.drop_first();
        assert forall|j: int| 0 <= j < i - 1 implies !((#[trigger] rest[j]).value
            is DisplayName) by {
            assert(rest[j] == fields[j + 1]);
        }
        assert(!(fields[0].value is DisplayName));
        law_first_display_name_is_told(rest, i - 1);
    }
}

/// The accounts that a state gives out are those of its fields, each in its
/// place: its kind and its value, or no value for the kinds that keep none.
pub proof fn law_state_gives_out_its_fields(state: StateModel, i: int)
    requires
        0 <= i < state.fields.len(),
    ensures
        state.accounts().len() == state.fields.len(),
        state.accounts()[i] == match state.fields[i].value {
            FieldValueModel::LegalName(v) => (AccountType::LegalName, v),
            FieldValueModel::DisplayName(v) => (AccountType::DisplayName, v),
            FieldValueModel::Email(v) => (AccountType::Email, v),
            FieldValueModel::Web(v) => (AccountType::Web, v),
            FieldValueModel::Twitter(v) => (AccountType::Twitter, v),
            FieldValueModel::Matrix(v) => (AccountType::Matrix, v),
            FieldValueModel::PGPFingerprint => (AccountType::PGPFingerprint, Seq::<char>::empty()),
            FieldValueModel::Image => (AccountType::Image, Seq::<char>::empty()),
            FieldValueModel::Additional => (AccountType::Additional, Seq::<char>::empty()),
        },
{
}

/// A state that is made of some accounts has the same fields as others
/// exactly when there are as many of those and each account is among them
/// again: with its type and, where the type keeps a value, with the value
/// that the field keeps. The order does not matter, nor does anything else
/// that the state holds.
pub proof fn law_same_fields_are_the_same_accounts(
    state: StateModel,
    first: Seq<(AccountType, Seq<char>)>,
    again: Seq<(AccountType, Seq<char>)>,
)
    requires
        is_state_of(state, first),
        crate::identity::types_distinct(first),
        crate::identity::types_distinct(again),
    ensures
        same_fields(state.fields, again) <==> {
            &&& again.len() == first.len()
            &&& forall|i: int| 0 <= i < first.len() ==> is_said_again(#[trigger] first[i], again)
        },
{
    if same_fields(state.fields, again) {
        law_known_request_is_unchanged(state, first, again);
        assert forall|i: int| 0 <= i < first.len() implies is_said_again(
            #[trigger] first[i],
            again,
        ) by {
            assert(is_claimed(FieldValueModel::of(first[i].0, first[i].1), again));
            let j = choose|j: int|
                0 <= j < again.len() && FieldValueModel::of(first[i].0, first[i].1).matches(
                    (#[trigger] again[j]).0,
                    again[j].1,
                );
            assert(again[j].0 == first[i].0);
        }
    }
    if again.len() == first.len() && forall|i: int|
        0 <= i < first.len() ==> is_said_again(#[trigger] first[i], again) {
        lemma_said_again_both_ways(first, again);
        assert forall|a: int| 0 <= a < again.len() implies has_match(
            state.fields,
            #[trigger] again[a],
        ) by {
            assert(says_one_again(first, again[a]));
            let i = choose|i: int|
                0 <= i < first.len() && says_again(#[trigger] first[i], again[a]);
            assert(state.fields[i].value.matches(again[a].0, again[a].1));
        }
    }
}

/// Whether the account says what the first one said: it is of the same type
/// and, where the type keeps a value, has the value that is kept.
pub open spec fn says_again(
    first: (AccountType, Seq<char>),
    account: (AccountType, Seq<char>),
) -> bool {
    &&& account.0 == first.0
    &&& match first.0 {
        AccountType::PGPFingerprint => true,
        AccountType::Image => true,
        AccountType::Additional => true,
        AccountType::Twitter => account.1 == text::lowercase(first.1),
        _ => account.1 == first.1,
    }
}

/// Whether one of the accounts says what the first one said.
pub open spec fn is_said_again(
    first: (AccountType, Seq<char>),
    again: Seq<(AccountType, Seq<char>)>,
) -> bool {
    exists|j: int| 0 <= j < again.len() && says_again(first, #[trigger] again[j])
}

/// Whether the account says what one of the first ones said.
spec fn says_one_again(
    first: Seq<(AccountType, Seq<char>)>,
    account: (AccountType, Seq<char>),
) -> bool {
    exists|i: int| 0 <= i < first.len() && says_again(#[trigger] first[i], account)
}

/// Where each of some accounts is said again by one of as many, each of those
/// says one of them again.
proof fn lemma_said_again_both_ways(
    first: Seq<(AccountType, Seq<char>)>,
    again: Seq<(AccountType, Seq<char>)>,
)
    requires
        crate::identity::types_distinct(first),
        again.len() == first.len(),
        forall|i: int| 0 <= i < first.len() ==> is_said_again(#[trigger] first[i], again),
    ensures
        forall|a: int|
            0 <= a < again.len() ==> says_one_again(first, #[trigger] again[a]),
{
    let n = first.len();
    let places = Seq::new(
        n,
        |i: int| choose|j: int| 0 <= j < again.len() && says_again(first[i], #[trigger] again[j]),
    );
    assert forall|i: int| 0 <= i < n implies 0 <= #[trigger] places[i] < n && says_again(
        first[i],
        again[places[i]],
    ) by {
        assert(is_said_again(first[i], again));
    }
    assert(places.no_duplicates()) by {
        assert forall|i: int, j: int| 0 <= i < n && 0 <= j < n && i != j implies places[i]
            != places[j] by {
            assert(first[i].0 != first[j].0);
        }
    }
    places.unique_seq_to_set();
    vstd::set_lib::lemma_int_range(0, n as int);
    let all = vstd::set_lib::set_int_range(0, n as int);
    assert(places.to_set().subset_of(all));
    vstd::set_lib::lemma_len_subset(places.to_set(), all);
    vstd::set_lib::lemma_subset_equality(places.to_set(), all);
    assert forall|a: int| 0 <= a < again.len() implies says_one_again(
        first,
        #[trigger] again[a],
    ) by {
        assert(places.to_set().contains(a));
        let i = choose|i: int| 0 <= i < n && places[i] == a;
        assert(says_again(first[i], again[a]));
    }
}

/// What is shown of a state is all that it holds but for the second codes,
/// of which only stays whether they are verified, and for when the judgement
/// is due.
pub proof fn law_blanked_shows_the_rest(state: StateModel, i: int)
    requires
        0 <= i < state.fields.len(),
    ensures
        state.blanked().context == state.context,
        state.blanked().is_fully_verified == state.is_fully_verified,
        state.blanked().inserted_timestamp == state.inserted_timestamp,
        state.blanked().completion_timestamp == state.completion_timestamp,
        state.blanked().judgement_submitted == state.judgement_submitted,
        state.blanked().fields.len() == state.fields.len(),
        state.blanked().fields[i].value == state.fields[i].value,
        state.blanked().fields[i].failed_attempts == state.fields[i].failed_attempts,
        state.fields[i].challenge matches ChallengeModel::ExpectedMessage { expected, second } ==> (
        state.blanked().fields[i].challenge matches BlankedChallengeModel::ExpectedMessage {
            expected: shown,
            second: flag,
        } && shown == expected && (second is Some <==> flag is Some) && (second is Some
            ==> flag->Some_0.is_verified == second->Some_0.is_verified)),
        state.fields[i].challenge matches ChallengeModel::DisplayNameCheck { passed, violations }
            ==> state.blanked().fields[i].challenge == (BlankedChallengeModel::DisplayNameCheck {
            passed,
            violations,
        }),
        state.fields[i].challenge matches ChallengeModel::Unsupported { is_verified }
            ==> state.blanked().fields[i].challenge == (BlankedChallengeModel::Unsupported {
            is_verified,
        }),
{
}

/// A state is seen with all that it holds, its fields one by one and each in
/// its place.
pub proof fn law_state_is_seen_whole(state: JudgementState, i: int)
    requires
        0 <= i < state.fields@.len(),
    ensures
        state@.context == state.context@,
        state@.is_fully_verified == state.is_fully_verified,
        state@.inserted_timestamp == state.inserted_timestamp,
        state@.completion_timestamp == state.completion_timestamp,
        state@.judgement_submitted == state.judgement_submitted,
        state@.issue_judgement_at == state.issue_judgement_at,
        state@.fields.len() == state.fields@.len(),
        state@.fields[i].value == state.fields@[i].value@,
        state@.fields[i].challenge == state.fields@[i].challenge@,
        state@.fields[i].failed_attempts == state.fields@[i].failed_attempts,
{
}

} // verus!
