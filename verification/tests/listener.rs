use registrar::challenge::ExpectedMessage;
use registrar::command::{Command, RawFieldName};
use registrar::config::{Config, LogLevel, MatrixConfig};
use registrar::database::DatabaseFailure;
use registrar::identity::{ChainAddress, ChainName, IdentityContext, IdentityFieldValue};
use registrar::listener::{AdapterFailure, Listener, ListenerStep};
use registrar::matrix::{is_admin, on_room_message, on_room_message_at, Nickname, RoomStep};
use registrar::message::{ExternalMessage, ExternalMessageType, MessageId, MessagePart};
use registrar::notification::{Event, IdentityJudged, NotificationMessage};
use registrar::time::Timestamp;

fn context(text: &str) -> IdentityContext {
    IdentityContext::new(ChainAddress::from(text.to_string()), ChainName::Kusama)
}

fn message(text: &str) -> ExternalMessage {
    ExternalMessage {
        origin: ExternalMessageType::Email("a@b".to_string()),
        id: MessageId(1),
        timestamp: Timestamp(0),
        values: vec![MessagePart::from(text.to_string())],
    }
}

fn awaiting(of: &str, field: IdentityFieldValue) -> NotificationMessage {
    NotificationMessage::AwaitingSecondChallenge { context: context(of), field }
}

fn email(to: &str) -> IdentityFieldValue {
    IdentityFieldValue::Email(to.to_string())
}

fn code(text: &str) -> ExpectedMessage {
    ExpectedMessage { value: text.to_string(), is_verified: false }
}

#[test]
fn messages_are_verified_in_order() {
    let listener = Listener::new("matrix");
    let mut step = listener.messages_fetched(Ok(vec![message("one"), message("two")]));
    let mut verified = vec![];
    loop {
        match step {
            ListenerStep::VerifyMessage(task) => {
                verified.push(task.message.clone());
                step = task.resume();
            }
            ListenerStep::FetchEvents(_) => break,
            _ => panic!("unexpected step"),
        }
    }
    assert_eq!(verified, vec![message("one"), message("two")]);
    assert!(matches!(
        listener.messages_fetched(Err(AdapterFailure)),
        ListenerStep::FetchEvents(_)
    ));
    assert!(matches!(listener.messages_fetched(Ok(vec![])), ListenerStep::FetchEvents(_)));
}

fn events() -> Vec<NotificationMessage> {
    vec![
        NotificationMessage::IdentityInserted { context: context("w") },
        awaiting("x", email("x@mail")),
        awaiting("y", IdentityFieldValue::Twitter("@y".to_string())),
        awaiting("z", email("z@mail")),
        NotificationMessage::SecondFieldVerified { context: context("v"), field: email("v@mail") },
    ]
}

#[test]
fn second_challenges_are_sent_in_order() {
    let mut step = Listener::new("email").events_fetched(Ok(events()));
    let mut sent = vec![];
    loop {
        match step {
            ListenerStep::FetchSecondChallenge(task) => {
                assert_eq!(task.challenge.field, email(&task.challenge.to));
                let of = task.challenge.context.address.as_str().to_string();
                step = task.resume(Ok(code(&of)));
            }
            ListenerStep::SendChallenge(task) => {
                sent.push((task.to.clone(), task.code.value.clone()));
                step = task.resume();
            }
            ListenerStep::AwaitRound(_) => break,
            _ => panic!("unexpected step"),
        }
    }
    assert_eq!(
        sent,
        vec![
            ("x@mail".to_string(), "x".to_string()),
            ("z@mail".to_string(), "z".to_string())
        ]
    );
}

#[test]
fn missing_codes_are_passed_over() {
    match Listener::new("email").events_fetched(Ok(events())) {
        ListenerStep::FetchSecondChallenge(task) => match task.resume(Err(DatabaseFailure)) {
            ListenerStep::FetchSecondChallenge(task) => {
                assert_eq!(task.challenge.to, "z@mail");
                assert!(matches!(
                    task.resume(Err(DatabaseFailure)),
                    ListenerStep::AwaitRound(_)
                ));
            }
            _ => panic!("not passed over"),
        },
        _ => panic!("no lookup"),
    }
}

#[test]
fn only_email_sends_second_challenges() {
    for name in ["matrix", "twitter", "Email", ""] {
        assert!(matches!(
            Listener::new(name).events_fetched(Ok(events())),
            ListenerStep::AwaitRound(_)
        ));
    }
    assert!(matches!(
        Listener::new("email").events_fetched(Err(DatabaseFailure)),
        ListenerStep::AwaitRound(_)
    ));
}

#[test]
fn notifications_tell_their_identity() {
    for event in events() {
        let of = match &event {
            NotificationMessage::IdentityInserted { context } => context,
            NotificationMessage::AwaitingSecondChallenge { context, .. } => context,
            NotificationMessage::SecondFieldVerified { context, .. } => context,
            _ => panic!("unexpected event"),
        };
        assert_eq!(event.context(), of);
        assert_eq!(event, event.clone());
    }
    let others = vec![
        NotificationMessage::IdentityUpdated { context: context("x") },
        NotificationMessage::FieldVerified { context: context("x"), field: email("a") },
        NotificationMessage::FieldVerificationFailed { context: context("x"), field: email("a") },
        NotificationMessage::SecondFieldVerificationFailed {
            context: context("x"),
            field: email("a"),
        },
        NotificationMessage::IdentityFullyVerified { context: context("x") },
        NotificationMessage::JudgementProvided { context: context("x") },
        NotificationMessage::ManuallyVerified { context: context("x"), field: RawFieldName::Web },
        NotificationMessage::FullManualVerification { context: context("x") },
    ];
    for event in others {
        assert_eq!(event.context(), &context("x"));
        assert_eq!(event, event.clone());
    }
}

#[test]
fn events_carry_the_time() {
    let message = NotificationMessage::JudgementProvided { context: context("x") };
    let dated = Event::at(message.clone(), Timestamp(8));
    assert_eq!(dated, Event { timestamp: Timestamp(8), message: message.clone() });
    let event = Event::from(message.clone());
    assert_eq!(event.message, message);
    let now = Timestamp::now().raw();
    assert!(event.timestamp.raw() <= now && event.timestamp.raw() + 60 > now);
    assert_eq!(event, event.clone());
    let judged = IdentityJudged { context: context("x"), timestamp: Timestamp(4) };
    assert_eq!(judged, judged.clone());
}

fn admins() -> Vec<Nickname> {
    vec![
        Nickname("@admin1:matrix.org".to_string()),
        Nickname("@admin2:matrix.org".to_string()),
    ]
}

fn room(sender: &str, body: Option<&str>) -> RoomStep {
    on_room_message_at(
        &admins(),
        sender.to_string(),
        body.map(|b| b.to_string()),
        Timestamp(12),
    )
}

fn matrix_message(sender: &str, body: &str) -> ExternalMessage {
    ExternalMessage {
        origin: ExternalMessageType::Matrix(sender.to_string()),
        id: MessageId(0),
        timestamp: Timestamp(12),
        values: vec![MessagePart(body.to_string())],
    }
}

#[test]
fn commands_of_admins_are_executed() {
    match room("@admin2:matrix.org", Some("verify 1x email")) {
        RoomStep::Execute(command) => assert_eq!(
            command,
            Command::Verify(ChainAddress::from("1x".to_string()), vec![RawFieldName::Email])
        ),
        _ => panic!("not executed"),
    }
    assert!(is_admin(&admins(), "@admin1:matrix.org"));
    assert!(!is_admin(&admins(), "@admin3:matrix.org"));
    assert!(!is_admin(&vec![], ""));
}

#[test]
fn other_messages_are_verified() {
    for (sender, body) in [
        ("@admin1:matrix.org", "d1f2e3"),
        ("@admin1:matrix.org", "verify 1x fax"),
        ("@alice:matrix.org", "help"),
        ("@alice:matrix.org", "verify 1x all"),
        ("@alice:matrix.org", ""),
    ] {
        match room(sender, Some(body)) {
            RoomStep::Verify(message) => assert_eq!(message, matrix_message(sender, body)),
            _ => panic!("not verified"),
        }
    }
}

#[test]
fn room_messages_answer_the_challenge_of_their_sender() {
    let field = IdentityFieldValue::Matrix("@alice:matrix.org".to_string());
    for (sender, body, answers, counts) in [
        ("@alice:matrix.org", "my code is d1f2e3", true, true),
        ("@alice:matrix.org", "d1f2", false, true),
        ("@bob:matrix.org", "d1f2e3", true, false),
    ] {
        match room(sender, Some(body)) {
            RoomStep::Verify(message) => {
                assert_eq!(code("d1f2e3").is_message_valid(&message), answers);
                assert_eq!(field.matches_origin(&message), counts);
            }
            _ => panic!("not verified"),
        }
    }
}

#[test]
fn messages_without_text_are_ignored() {
    assert!(matches!(room("@admin1:matrix.org", None), RoomStep::Ignore));
}

#[test]
fn messages_in_rooms_carry_the_time() {
    let sender = "@alice:matrix.org".to_string();
    match on_room_message(&admins(), sender, Some("code".to_string())) {
        RoomStep::Verify(message) => {
            let now = Timestamp::now().raw();
            assert!(message.timestamp.raw() <= now && message.timestamp.raw() + 60 > now);
        }
        _ => panic!("not verified"),
    }
}

fn settings(enabled: bool, admins: Option<Vec<Nickname>>) -> MatrixConfig {
    MatrixConfig {
        enabled,
        homeserver: "https://matrix.org".to_string(),
        username: "bot".to_string(),
        password: "pass".to_string(),
        security_key: "key".to_string(),
        admins,
    }
}

#[test]
fn the_bot_is_set_up_where_it_is_enabled() {
    assert!(settings(false, Some(admins())).bot_config().is_none());
    let config = Config { log_level: LogLevel::Info, matrix: settings(true, Some(admins())) };
    let bot = config.matrix.bot_config().expect("enabled");
    assert_eq!(bot.homeserver, "https://matrix.org");
    assert_eq!(bot.username, "bot");
    assert_eq!(bot.password, "pass");
    assert_eq!(bot.admins, admins());
    assert_eq!(bot, bot.clone());
}

#[test]
fn no_admins_means_no_commands() {
    let config = settings(true, None);
    let bot = config.bot_config().expect("enabled");
    assert_eq!(bot.admins, vec![]);
    assert!(matches!(
        on_room_message_at(&bot.admins, "@a:b".to_string(), Some("help".to_string()), Timestamp(0)),
        RoomStep::Verify(_)
    ));
}

#[test]
fn log_levels_have_names_and_filters() {
    for (level, name) in [
        (LogLevel::Error, "error"),
        (LogLevel::Warn, "warn"),
        (LogLevel::Info, "info"),
        (LogLevel::Debug, "debug"),
        (LogLevel::Trace, "trace"),
    ] {
        assert_eq!(level.as_str(), name);
        assert_eq!(level.filter(), format!("system={}", name));
    }
}
