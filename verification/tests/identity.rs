use registrar::identity::{
    AccountType, Accounts, ChainAddress, ChainName, IdentityContext, IdentityFieldValue,
};
use registrar::message::{ExternalMessage, ExternalMessageType, MessageId, MessagePart};
use registrar::time::Timestamp;

fn message(origin: ExternalMessageType) -> ExternalMessage {
    ExternalMessage { origin, id: MessageId::from(7u64), timestamp: Timestamp(3), values: vec![] }
}

const TYPES: [AccountType; 9] = [
    AccountType::LegalName,
    AccountType::DisplayName,
    AccountType::Email,
    AccountType::Web,
    AccountType::Twitter,
    AccountType::Matrix,
    AccountType::PGPFingerprint,
    AccountType::Image,
    AccountType::Additional,
];

#[test]
fn chains_and_addresses_have_names() {
    assert_eq!(ChainName::Polkadot.as_str(), "polkadot");
    assert_eq!(ChainName::Kusama.as_str(), "kusama");
    assert_eq!(ChainAddress::from("1a2b".to_string()).as_str(), "1a2b");
    let context = IdentityContext::new(ChainAddress::from("x".to_string()), ChainName::Kusama);
    assert_eq!(context.address.as_str(), "x");
    assert_eq!(context.chain, ChainName::Kusama);
    assert_eq!(context, context.clone());
    let other = IdentityContext::new(ChainAddress::from("x".to_string()), ChainName::Polkadot);
    assert!(context != other);
}

#[test]
fn accounts_become_fields_of_their_type() {
    for ty in TYPES {
        let field = IdentityFieldValue::from((ty, "value".to_string()));
        let (back, value) = field.as_account_type();
        assert_eq!(back, ty);
        match ty {
            AccountType::PGPFingerprint | AccountType::Image | AccountType::Additional => {
                assert_eq!(value, "")
            }
            _ => assert_eq!(value, "value"),
        }
        assert!(field.matches_type(&back, &value));
    }
}

#[test]
fn twitter_handles_are_kept_in_lower_case() {
    let field = IdentityFieldValue::from((AccountType::Twitter, "@Alice\u{c9}".to_string()));
    assert_eq!(field, IdentityFieldValue::Twitter("@alice\u{e9}".to_string()));
    assert!(field.matches_type(&AccountType::Twitter, "@alice\u{e9}"));
    assert!(!field.matches_type(&AccountType::Twitter, "@Alice\u{c9}"));
    let ascii = IdentityFieldValue::from((AccountType::Twitter, "@ALICE_1".to_string()));
    assert_eq!(ascii, IdentityFieldValue::Twitter("@alice_1".to_string()));
    let email = IdentityFieldValue::from((AccountType::Email, "Alice@A.org".to_string()));
    assert_eq!(email, IdentityFieldValue::Email("Alice@A.org".to_string()));
}

#[test]
fn fields_match_their_type_and_value_only() {
    for ty in TYPES {
        let field = IdentityFieldValue::from((ty, "value".to_string()));
        for other in TYPES {
            assert_eq!(field.matches_type(&other, "value"), other == ty);
        }
        let keeps = !matches!(
            ty,
            AccountType::PGPFingerprint | AccountType::Image | AccountType::Additional
        );
        assert_eq!(field.matches_type(&ty, "else"), !keeps);
    }
}

#[test]
fn messages_come_from_the_account_of_the_field() {
    let email = IdentityFieldValue::Email("a".to_string());
    let twitter = IdentityFieldValue::Twitter("a".to_string());
    let matrix = IdentityFieldValue::Matrix("a".to_string());
    let from_email = message(ExternalMessageType::Email("a".to_string()));
    let from_twitter = message(ExternalMessageType::Twitter("a".to_string()));
    let from_matrix = message(ExternalMessageType::Matrix("a".to_string()));
    let from_other = message(ExternalMessageType::Email("b".to_string()));
    assert!(email.matches_origin(&from_email));
    assert!(!email.matches_origin(&from_twitter));
    assert!(!email.matches_origin(&from_matrix));
    assert!(!email.matches_origin(&from_other));
    assert!(twitter.matches_origin(&from_twitter));
    assert!(!twitter.matches_origin(&from_email));
    assert!(matrix.matches_origin(&from_matrix));
    assert!(!matrix.matches_origin(&from_email));
    assert!(!IdentityFieldValue::Web("a".to_string()).matches_origin(&from_email));
    assert!(!IdentityFieldValue::Image(()).matches_origin(&from_email));
}

#[test]
fn accounts_hold_each_type_once() {
    let mut accounts = Accounts::new();
    assert_eq!(accounts.len(), 0);
    assert_eq!(accounts.insert(AccountType::Email, "a".to_string()), None);
    assert_eq!(accounts.insert(AccountType::Web, "w".to_string()), None);
    assert_eq!(accounts.insert(AccountType::Email, "b".to_string()), Some("a".to_string()));
    assert_eq!(accounts.len(), 2);
    assert_eq!(
        accounts.entries(),
        &vec![
            (AccountType::Email, "b".to_string()),
            (AccountType::Web, "w".to_string())
        ]
    );
    assert_eq!(accounts.get(AccountType::Email), Some(&"b".to_string()));
    assert_eq!(accounts.get(AccountType::Matrix), None);
    assert_eq!(accounts.clone().entries(), accounts.entries());
    assert_eq!(accounts.remove(AccountType::Matrix), None);
    assert_eq!(accounts.remove(AccountType::Email), Some("b".to_string()));
    assert_eq!(accounts.entries(), &vec![(AccountType::Web, "w".to_string())]);
}

#[test]
fn only_the_display_name_of_accounts_is_decoded() {
    let mut accounts = Accounts::new();
    accounts.insert(AccountType::LegalName, "0x416c".to_string());
    accounts.insert(AccountType::DisplayName, "0x416c".to_string());
    accounts.decode_display_name();
    assert_eq!(accounts.get(AccountType::LegalName), Some(&"0x416c".to_string()));
    assert_eq!(accounts.get(AccountType::DisplayName), Some(&"Al".to_string()));
    assert_eq!(
        accounts.into_fields(),
        vec![
            IdentityFieldValue::LegalName("0x416c".to_string()),
            IdentityFieldValue::DisplayName("Al".to_string())
        ]
    );
}

#[test]
fn message_ids_and_parts_are_made_of_their_values() {
    assert_eq!(MessageId::from(5u32), MessageId::from(5u64));
    assert_eq!(MessageId::from(5u64), MessageId(5));
    assert_eq!(MessagePart::from("p".to_string()), MessagePart("p".to_string()));
    let sent = message(ExternalMessageType::Matrix("a".to_string()));
    assert_eq!(sent, sent.clone());
}

#[test]
fn times_are_offset_and_compared() {
    assert_eq!(Timestamp(5).offset_by(7), Some(Timestamp(12)));
    assert_eq!(Timestamp(5).offset_by(u64::MAX), None);
    assert_eq!(Timestamp(5).offset_by(u64::MAX - 5), Some(Timestamp(u64::MAX)));
    assert_eq!(Timestamp(5).max(Timestamp(7)), Timestamp(7));
    assert_eq!(Timestamp(7).max(Timestamp(5)), Timestamp(7));
    assert_eq!(Timestamp(9).raw(), 9);
}

#[test]
fn a_clock_before_the_epoch_shows_the_epoch() {
    assert_eq!(Timestamp::shown(Some(5)), Timestamp(5));
    assert_eq!(Timestamp::shown(None), Timestamp(0));
}

#[test]
fn the_clock_is_read() {
    let now = std::time::SystemTime::now()
        .duration_since(std::time::UNIX_EPOCH)
        .expect("clock")
        .as_secs();
    let read = Timestamp::now().raw();
    assert!(read >= now && read <= now + 60);
    let later = Timestamp::with_offset(1000).expect("in range").raw();
    assert!(later >= now + 1000 && later <= now + 1060);
    assert_eq!(Timestamp::with_offset(u64::MAX), None);
}
