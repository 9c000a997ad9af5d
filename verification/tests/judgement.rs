use registrar::challenge::{ChallengeType, ExpectedMessage, IdentityField};
use registrar::display_name::DisplayNameEntry;
use registrar::identity::{
    AccountType, Accounts, ChainAddress, ChainName, IdentityContext, IdentityFieldValue,
};
use registrar::judgement::{
    ChallengeTypeBlanked, ExpectedMessageBlanked, JudgementState, JudgementStateBlanked,
};
use registrar::message::{ExternalMessage, ExternalMessageType, MessageId, MessagePart};
use registrar::time::Timestamp;

fn context(address: &str) -> IdentityContext {
    IdentityContext::new(ChainAddress::from(address.to_string()), ChainName::Polkadot)
}

fn accounts() -> Accounts {
    let mut accounts = Accounts::new();
    accounts.insert(AccountType::DisplayName, "Alice".to_string());
    accounts.insert(AccountType::Email, "alice@email.com".to_string());
    accounts.insert(AccountType::Twitter, "@alice".to_string());
    accounts.insert(AccountType::Matrix, "@alice:matrix.org".to_string());
    accounts
}

fn state() -> JudgementState {
    JudgementState::new(context("1alice"), accounts().into_fields())
}

fn message(parts: &[&str]) -> ExternalMessage {
    ExternalMessage {
        origin: ExternalMessageType::Email("alice@email.com".to_string()),
        id: MessageId(0),
        timestamp: Timestamp(0),
        values: parts.iter().map(|p| MessagePart::from(p.to_string())).collect(),
    }
}

#[test]
fn codes_are_sixteen_bytes_in_hex() {
    let code = ExpectedMessage::from_bytes([
        0, 1, 9, 10, 15, 16, 17, 159, 160, 171, 205, 239, 254, 255, 128, 127,
    ]);
    assert_eq!(code.value, "0001090a0f10119fa0abcdeffeff807f");
    assert!(!code.is_verified);
}

#[test]
fn random_codes_differ() {
    let one = ExpectedMessage::random();
    let other = ExpectedMessage::random();
    assert_eq!(one.value.len(), 32);
    assert!(one.value.chars().all(|c| c.is_ascii_digit() || ('a'..='f').contains(&c)));
    assert!(one.value != other.value);
    assert!(!one.is_verified);
}

#[test]
fn codes_are_found_in_messages() {
    let code = ExpectedMessage { value: "abc123".to_string(), is_verified: false };
    assert!(code.is_message_valid(&message(&["abc123"])));
    assert!(code.is_message_valid(&message(&["hello", "the code is abc123."])));
    assert!(!code.is_message_valid(&message(&["abc", "123"])));
    assert!(!code.is_message_valid(&message(&["ABC123"])));
    assert!(!code.is_message_valid(&message(&[])));
    assert!(!code.is_message_valid(&message(&["abc12"])));
    let parts = code.to_message_parts();
    assert_eq!(parts, vec![MessagePart("abc123".to_string())]);
}

#[test]
fn codes_are_marked_as_verified() {
    let mut code = ExpectedMessage { value: "abc".to_string(), is_verified: false };
    code.set_verified();
    assert_eq!(code, ExpectedMessage { value: "abc".to_string(), is_verified: true });
    let _: () = code.into();
}

#[test]
fn fields_have_the_challenge_of_their_kind() {
    let name = IdentityField::new(IdentityFieldValue::DisplayName("A".to_string()));
    assert_eq!(
        name.challenge,
        ChallengeType::DisplayNameCheck { passed: false, violations: vec![] }
    );
    let email = IdentityField::new(IdentityFieldValue::Email("a".to_string()));
    match email.challenge {
        ChallengeType::ExpectedMessage { expected, second: Some(second) } => {
            assert!(expected.value != second.value);
            assert!(!expected.is_verified && !second.is_verified);
        }
        _ => panic!("no second challenge"),
    }
    for value in [
        IdentityFieldValue::Twitter("a".to_string()),
        IdentityFieldValue::Matrix("a".to_string()),
    ] {
        assert!(matches!(
            IdentityField::new(value).challenge,
            ChallengeType::ExpectedMessage { second: None, .. }
        ));
    }
    for value in [
        IdentityFieldValue::LegalName("a".to_string()),
        IdentityFieldValue::Web("a".to_string()),
        IdentityFieldValue::PGPFingerprint(()),
        IdentityFieldValue::Image(()),
        IdentityFieldValue::Additional(()),
    ] {
        let field = IdentityField::new(value);
        assert_eq!(field.challenge, ChallengeType::Unsupported { is_verified: None });
        assert_eq!(field.failed_attempts, 0);
        assert!(!field.challenge.is_verified());
    }
}

#[test]
fn challenges_are_met_when_all_of_them_is() {
    let code = |done: bool| ExpectedMessage { value: "x".to_string(), is_verified: done };
    for first in [false, true] {
        let single = ChallengeType::ExpectedMessage { expected: code(first), second: None };
        assert_eq!(single.is_verified(), first);
        for second in [false, true] {
            let both = ChallengeType::ExpectedMessage {
                expected: code(first),
                second: Some(code(second)),
            };
            assert_eq!(both.is_verified(), first && second);
        }
        let name = ChallengeType::DisplayNameCheck { passed: first, violations: vec![] };
        assert_eq!(name.is_verified(), first);
        let manual = ChallengeType::Unsupported { is_verified: Some(first) };
        assert_eq!(manual.is_verified(), first);
    }
    assert!(!ChallengeType::Unsupported { is_verified: None }.is_verified());
}

#[test]
fn new_states_are_unverified() {
    let state = state();
    assert!(!state.is_fully_verified);
    assert!(!state.judgement_submitted);
    assert_eq!(state.completion_timestamp, None);
    assert_eq!(state.issue_judgement_at, None);
    assert_eq!(state.fields.len(), 4);
    assert!(!state.check_full_verification());
    assert_eq!(state.context, context("1alice"));
    assert!(Timestamp::now().raw() >= state.inserted_timestamp.raw());
    let empty = JudgementState::new(context("x"), vec![]);
    assert!(empty.check_full_verification());
}

#[test]
fn states_are_verified_when_every_field_is() {
    let mut state = state();
    for field in state.fields.iter_mut() {
        match &mut field.challenge {
            ChallengeType::ExpectedMessage { expected, second } => {
                expected.set_verified();
                if let Some(second) = second {
                    second.set_verified();
                }
            }
            ChallengeType::DisplayNameCheck { passed, .. } => *passed = true,
            ChallengeType::Unsupported { is_verified } => *is_verified = Some(true),
        }
    }
    assert!(state.check_full_verification());
    if let ChallengeType::ExpectedMessage { second: Some(second), .. } =
        &mut state.fields[1].challenge
    {
        second.is_verified = false;
    }
    assert!(!state.check_full_verification());
}

#[test]
fn states_tell_their_display_name() {
    assert_eq!(state().display_name(), Some("Alice"));
    let without = JudgementState::new(
        context("x"),
        vec![IdentityFieldValue::LegalName("Alice".to_string())],
    );
    assert_eq!(without.display_name(), None);
}

#[test]
fn states_match_the_accounts_that_opened_them() {
    let state = state();
    assert!(state.has_same_fields_as(&accounts()));
    let mut reordered = Accounts::new();
    for (ty, value) in accounts().entries().iter().rev() {
        reordered.insert(*ty, value.clone());
    }
    assert!(state.has_same_fields_as(&reordered));
    let mut fewer = accounts();
    fewer.remove(AccountType::Email);
    assert!(!state.has_same_fields_as(&fewer));
    let mut changed = accounts();
    changed.insert(AccountType::Email, "bob@email.com".to_string());
    assert!(!state.has_same_fields_as(&changed));
    let mut more = accounts();
    more.insert(AccountType::Web, "alice.com".to_string());
    assert!(!state.has_same_fields_as(&more));
    let mut other_type = accounts();
    other_type.remove(AccountType::Email);
    other_type.insert(AccountType::Web, "alice@email.com".to_string());
    assert!(!state.has_same_fields_as(&other_type));
}

#[test]
fn twitter_capitals_are_not_matched() {
    let mut accounts = Accounts::new();
    accounts.insert(AccountType::Twitter, "@Alice".to_string());
    let state = JudgementState::new(context("x"), accounts.clone().into_fields());
    assert!(!state.has_same_fields_as(&accounts));
}

#[test]
fn verified_entries_are_the_accounts_of_the_fields() {
    let state = JudgementState::new(
        context("x"),
        vec![
            IdentityFieldValue::Email("a@b".to_string()),
            IdentityFieldValue::Image(()),
        ],
    );
    let entries = state.as_verified_entries();
    assert_eq!(entries.len(), 2);
    assert_eq!(entries[0].account_ty, AccountType::Email);
    assert_eq!(entries[0].value, "a@b");
    assert_eq!(entries[1].account_ty, AccountType::Image);
    assert_eq!(entries[1].value, "");
}

#[test]
fn blanked_states_leave_the_second_code_out() {
    let code = |text: &str| ExpectedMessage { value: text.to_string(), is_verified: true };
    let opened = |second: &str| {
        JudgementState::opened(
            context("x"),
            vec![IdentityField {
                value: IdentityFieldValue::Email("a".to_string()),
                challenge: ChallengeType::ExpectedMessage {
                    expected: code("first"),
                    second: Some(code(second)),
                },
                failed_attempts: 3,
            }],
            Timestamp(11),
        )
    };
    let blanked = JudgementStateBlanked::from(opened("one"));
    assert_eq!(blanked, JudgementStateBlanked::from(opened("other")));
    assert_eq!(blanked.inserted_timestamp, Timestamp(11));
    assert_eq!(blanked.fields[0].failed_attempts, 3);
    assert_eq!(
        blanked.fields[0].challenge,
        ChallengeTypeBlanked::ExpectedMessage {
            expected: code("first"),
            second: Some(ExpectedMessageBlanked { is_verified: true }),
        }
    );
    assert_eq!(blanked, blanked.clone());
}

#[test]
fn blanked_states_keep_the_rest() {
    let entry = DisplayNameEntry { context: context("y"), display_name: "Alicia".to_string() };
    let state = JudgementState::opened(
        context("x"),
        vec![
            IdentityField {
                value: IdentityFieldValue::DisplayName("Alice".to_string()),
                challenge: ChallengeType::DisplayNameCheck {
                    passed: false,
                    violations: vec![entry.clone()],
                },
                failed_attempts: 0,
            },
            IdentityField {
                value: IdentityFieldValue::Web("w".to_string()),
                challenge: ChallengeType::Unsupported { is_verified: Some(true) },
                failed_attempts: 0,
            },
        ],
        Timestamp(0),
    );
    let blanked = JudgementStateBlanked::from(state.clone());
    assert_eq!(
        blanked.fields[0].challenge,
        ChallengeTypeBlanked::DisplayNameCheck { passed: false, violations: vec![entry] }
    );
    assert_eq!(
        blanked.fields[1].challenge,
        ChallengeTypeBlanked::Unsupported { is_verified: Some(true) }
    );
    assert_eq!(blanked.fields[1].value, state.fields[1].value);
}
