use registrar::admin::{
    answer_full_verification, answer_status, create_context, process_admin, AdminStep, Response,
};
use registrar::command::{Command, CommandError, RawFieldName};
use registrar::database::DatabaseFailure;
use registrar::identity::{ChainAddress, ChainName, IdentityContext};
use registrar::judgement::{JudgementState, JudgementStateBlanked};
use std::str::FromStr;

const FIELDS: [RawFieldName; 7] = [
    RawFieldName::LegalName,
    RawFieldName::DisplayName,
    RawFieldName::Email,
    RawFieldName::Web,
    RawFieldName::Twitter,
    RawFieldName::Matrix,
    RawFieldName::All,
];

fn address(text: &str) -> ChainAddress {
    ChainAddress::from(text.to_string())
}

#[test]
fn documented_field_names_are_read() {
    let names = ["legalname", "displayname", "email", "web", "twitter", "matrix", "all"];
    for (name, field) in names.iter().zip(FIELDS) {
        assert_eq!(RawFieldName::from_str(name), Ok(field));
    }
}

#[test]
fn shown_field_names_are_read() {
    let shown = ["legal_name", "display_name", "email", "web", "twitter", "matrix", "all"];
    for (name, field) in shown.iter().zip(FIELDS) {
        assert_eq!(field.as_str(), *name);
        assert_eq!(RawFieldName::from_str(field.as_str()), Ok(field));
    }
}

#[test]
fn field_names_are_read_leniently() {
    assert_eq!(RawFieldName::from_str(" Display-Name\t"), Ok(RawFieldName::DisplayName));
    assert_eq!(RawFieldName::from_str("LEGAL__NAME"), Ok(RawFieldName::LegalName));
    assert_eq!(RawFieldName::from_str("-e-m_a-i_l-"), Ok(RawFieldName::Email));
}

#[test]
fn other_field_names_are_invalid_input() {
    assert_eq!(
        RawFieldName::from_str(" Phone-Number "),
        Err(Response::InvalidSyntax(Some("phonenumber".to_string())))
    );
    assert_eq!(
        RawFieldName::from_str(""),
        Err(Response::InvalidSyntax(Some("".to_string())))
    );
    assert_eq!(
        RawFieldName::from_str("\u{c9}mail"),
        Err(Response::InvalidSyntax(Some("\u{e9}mail".to_string())))
    );
    assert!(RawFieldName::from_str("display name").is_err());
}

#[test]
fn documented_commands_are_read() {
    let alice = "1a2YiGNu1UUhJtihq8961c7FZtWGQuWDVMWTNBKJdmpGhZP";
    assert_eq!(
        Command::from_str(&format!("status {}", alice)),
        Ok(Command::Status(address(alice)))
    );
    assert_eq!(
        Command::from_str(&format!("verify {} displayname email", alice)),
        Ok(Command::Verify(
            address(alice),
            vec![RawFieldName::DisplayName, RawFieldName::Email]
        ))
    );
    assert_eq!(Command::from_str("help"), Ok(Command::Help));
}

#[test]
fn white_space_around_commands_does_not_matter() {
    assert_eq!(Command::from_str(" \t status x\n"), Ok(Command::Status(address("x"))));
    assert_eq!(Command::from_str("status  x"), Ok(Command::Status(address("x"))));
    assert_eq!(
        Command::from_str("verify  x  email  web"),
        Ok(Command::Verify(address("x"), vec![RawFieldName::Email, RawFieldName::Web]))
    );
}

#[test]
fn the_kind_of_a_command_is_told_by_its_beginning() {
    assert_eq!(Command::from_str("statusses x"), Ok(Command::Status(address("x"))));
    assert_eq!(Command::from_str("helpme"), Ok(Command::Help));
    assert_eq!(Command::from_str("status   x"), Err(Response::UnknownCommand));
}

#[test]
fn incomplete_commands_are_refused() {
    for (text, error, message) in [
        ("status", CommandError::Status, "Invalid `status` command"),
        ("status x y", CommandError::Status, "Invalid `status` command"),
        ("verify", CommandError::Verify, "Invalid `verify` command"),
        ("verify x", CommandError::Verify, "Invalid `verify` command"),
        ("help me", CommandError::Help, "Invalid `help` command"),
        ("Status x", CommandError::Unknown, "Unknown command"),
        ("", CommandError::Unknown, "Unknown command"),
    ] {
        assert_eq!(Command::from_str(text), Err(Response::UnknownCommand));
        assert_eq!(error.message(), message);
        assert_eq!(Command::read(text), Err(error));
    }
}

#[test]
fn the_first_misnamed_field_is_reported() {
    assert_eq!(
        Command::from_str("verify x email Fax phone"),
        Err(Response::InvalidSyntax(Some("fax".to_string())))
    );
    let error = CommandError::Field("fax".to_string());
    assert_eq!(error.message(), "Invalid input 'fax'");
    assert_eq!(Command::read("verify x email Fax phone"), Err(error));
}

#[test]
fn contexts_follow_the_address() {
    assert_eq!(
        create_context(address("1abc")),
        IdentityContext { address: address("1abc"), chain: ChainName::Polkadot }
    );
    assert_eq!(create_context(address("Fabc")).chain, ChainName::Kusama);
    assert_eq!(create_context(address("")).chain, ChainName::Kusama);
    assert_eq!(create_context(address("F1")).chain, ChainName::Kusama);
}

#[test]
fn answers_have_their_text() {
    let message = |response: Response| response.message();
    assert_eq!(
        message(Response::Verified(
            address("x"),
            vec![RawFieldName::DisplayName, RawFieldName::Email]
        )),
        Some("Verified the following fields: display_name, email".to_string())
    );
    assert_eq!(
        message(Response::Verified(address("x"), vec![RawFieldName::Web])),
        Some("Verified the following fields: web".to_string())
    );
    assert_eq!(
        message(Response::Verified(address("x"), vec![])),
        Some("Verified the following fields: ".to_string())
    );
    assert_eq!(
        message(Response::UnknownCommand),
        Some("The provided command is unknown".to_string())
    );
    assert_eq!(
        message(Response::IdentityNotFound),
        Some("Identity was not found or invalid query executed".to_string())
    );
    assert_eq!(
        message(Response::InvalidSyntax(Some("fax".to_string()))),
        Some("Invalid input 'fax'".to_string())
    );
    assert_eq!(message(Response::InvalidSyntax(None)), Some("Invalid input".to_string()));
    assert_eq!(
        message(Response::FullyVerified(address("x"))),
        Some("Identity has been fully verified. The extrinsic will be submitted in a couple of minutes".to_string())
    );
    assert_eq!(
        message(Response::InternalError),
        Some("An internal error occured. Please contact the architects.".to_string())
    );
    assert_eq!(
        message(Response::Help),
        Some("status <ADDR>\t\t\tShow the current verification status of the specified address.\nverify <ADDR> <FIELD>...\tVerify one or multiple fields of the specified address.\n".to_string())
    );
    let state = JudgementState::new(create_context(address("x")), vec![]);
    assert_eq!(message(Response::Status(JudgementStateBlanked::from(state))), None);
}

#[test]
fn status_is_looked_up_and_answered() {
    match process_admin(Command::Status(address("1x"))) {
        AdminStep::FetchState(context) => assert_eq!(context, create_context(address("1x"))),
        _ => panic!("no lookup"),
    }
    let state = JudgementState::new(create_context(address("1x")), vec![]);
    assert_eq!(
        answer_status(Ok(Some(state.clone()))),
        Response::Status(JudgementStateBlanked::from(state))
    );
    assert_eq!(answer_status(Ok(None)), Response::IdentityNotFound);
    assert_eq!(answer_status(Err(DatabaseFailure)), Response::InternalError);
}

#[test]
fn the_full_identity_takes_precedence() {
    let fields = vec![RawFieldName::Email, RawFieldName::All, RawFieldName::Web];
    match process_admin(Command::Verify(address("x"), fields)) {
        AdminStep::VerifyIdentity(of, context) => {
            assert_eq!(of, address("x"));
            assert_eq!(context, create_context(address("x")));
        }
        _ => panic!("no full verification"),
    }
    assert_eq!(
        answer_full_verification(address("x"), Ok(true)),
        Response::FullyVerified(address("x"))
    );
    assert_eq!(answer_full_verification(address("x"), Ok(false)), Response::IdentityNotFound);
    assert_eq!(
        answer_full_verification(address("x"), Err(DatabaseFailure)),
        Response::InternalError
    );
}

fn verify(fields: Vec<RawFieldName>, ends: Vec<Result<bool, DatabaseFailure>>) -> (Vec<RawFieldName>, Response) {
    let mut tried = vec![];
    let mut ends = ends.into_iter();
    let mut step = process_admin(Command::Verify(address("1x"), fields));
    loop {
        match step {
            AdminStep::VerifyField(task) => {
                assert_eq!(task.context(), &create_context(address("1x")));
                tried.push(task.field());
                step = task.resume(ends.next().expect("an end for each field"));
            }
            AdminStep::Answer(response) => return (tried, response),
            _ => panic!("unexpected step"),
        }
    }
}

#[test]
fn fields_are_verified_in_order() {
    let fields = vec![RawFieldName::Web, RawFieldName::Email, RawFieldName::Web];
    let (tried, response) = verify(fields.clone(), vec![Ok(true), Ok(true), Ok(true)]);
    assert_eq!(tried, fields);
    assert_eq!(response, Response::Verified(address("1x"), fields));
    let (tried, response) = verify(vec![], vec![]);
    assert_eq!(tried, vec![]);
    assert_eq!(response, Response::Verified(address("1x"), vec![]));
}

#[test]
fn the_first_failure_ends_verification() {
    let fields = vec![RawFieldName::Web, RawFieldName::Email, RawFieldName::Matrix];
    let (tried, response) = verify(fields.clone(), vec![Ok(true), Ok(false)]);
    assert_eq!(tried, vec![RawFieldName::Web, RawFieldName::Email]);
    assert_eq!(response, Response::IdentityNotFound);
    let (tried, response) = verify(fields, vec![Err(DatabaseFailure)]);
    assert_eq!(tried, vec![RawFieldName::Web]);
    assert_eq!(response, Response::InternalError);
}

#[test]
fn help_is_answered_at_once() {
    match process_admin(Command::Help) {
        AdminStep::Answer(response) => assert_eq!(response, Response::Help),
        _ => panic!("no answer"),
    }
}
