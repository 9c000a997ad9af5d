use registrar::database::DatabaseFailure;
use registrar::display_name::{
    DisplayNameConfig, DisplayNameEntry, DisplayNameEntryRaw, DisplayNameVerifier,
};
use registrar::identity::{
    AccountType, Accounts, ChainAddress, ChainName, IdentityContext, IdentityFieldValue,
};
use registrar::judgement::JudgementState;
use registrar::time::Timestamp;
use registrar::watcher::{
    provide_judgements, AckResponse, ClientCommand, ClientStep, Connector, EventType, Judgement,
    JudgementRequest, Payload, ReconnectStep, Reconnection, ResponseMessage, SinkState,
    WatcherMessage, WatcherStep,
};

fn address(text: &str) -> ChainAddress {
    ChainAddress::from(text.to_string())
}

fn context(text: &str) -> IdentityContext {
    IdentityContext::new(address(text), ChainName::Kusama)
}

fn connector(checks_names: bool) -> Connector {
    let names = DisplayNameVerifier::new(DisplayNameConfig { enabled: checks_names });
    Connector::new(ChainName::Kusama, names, Timestamp(1000))
}

fn request(text: &str, name: &str) -> JudgementRequest {
    let mut accounts = Accounts::new();
    accounts.insert(AccountType::DisplayName, name.to_string());
    accounts.insert(AccountType::Email, "a@b".to_string());
    JudgementRequest { address: address(text), accounts }
}

fn begin(connector: &mut Connector, message: WatcherMessage) -> WatcherStep {
    connector.handle_message_at(message, Timestamp(2000))
}

#[test]
fn payloads_follow_the_event() {
    for (event, payload) in [
        (EventType::Ack, Payload::Ack),
        (EventType::Error, Payload::Error),
        (EventType::NewJudgementRequest, Payload::NewJudgementRequest),
        (EventType::PendingJudgementsResponse, Payload::PendingJudgements),
        (EventType::DisplayNamesResponse, Payload::DisplayNames),
        (EventType::JudgementResult, Payload::Unrecognized),
        (EventType::PendingJudgementsRequest, Payload::Unrecognized),
        (EventType::DisplayNamesRequest, Payload::Unrecognized),
    ] {
        assert_eq!(event.payload(), payload);
    }
}

#[test]
fn judgements_vouch_for_the_accounts_of_the_request() {
    let mut accounts = Accounts::new();
    accounts.insert(AccountType::Twitter, "@Alice".to_string());
    accounts.insert(AccountType::Web, "Alice.com".to_string());
    accounts.insert(AccountType::PGPFingerprint, "abc".to_string());
    let state = JudgementState::new(context("x"), accounts.into_fields());
    let command = ClientCommand::ProvideJudgement(state);
    match connector(true).handle_command_at(SinkState::Open, Timestamp(1000), command) {
        ClientStep::ProvideJudgement(message) => {
            let sent: Vec<(AccountType, &str)> = message
                .data
                .verified
                .iter()
                .map(|entry| (entry.account_ty, entry.value.as_str()))
                .collect();
            assert_eq!(
                sent,
                vec![
                    (AccountType::Twitter, "@alice"),
                    (AccountType::Web, "Alice.com"),
                    (AccountType::PGPFingerprint, "")
                ]
            );
        }
        _ => panic!("no judgement"),
    }
}

#[test]
fn identities_belong_to_the_network_of_the_connection() {
    for network in [ChainName::Polkadot, ChainName::Kusama] {
        let names = DisplayNameVerifier::new(DisplayNameConfig { enabled: true });
        let mut connector = Connector::new(network, names, Timestamp(0));
        match begin(&mut connector, WatcherMessage::NewJudgementRequest(request("1x", "Al"))) {
            WatcherStep::FetchState(task) => {
                assert_eq!(task.context.chain, network);
                match task.resume(Ok(None)) {
                    WatcherStep::AddRequest(task) => assert_eq!(task.state.context.chain, network),
                    _ => panic!("no insertion"),
                }
            }
            _ => panic!("no lookup"),
        }
        match begin(&mut connector, ack("judgement given", Some("1x"))) {
            WatcherStep::SetJudged(judged) => assert_eq!(judged.chain, network),
            _ => panic!("not noted"),
        }
    }
}

#[test]
fn judgements_are_sent_as_reasonable() {
    let state = JudgementState::new(
        context("x"),
        vec![
            IdentityFieldValue::Email("a@b".to_string()),
            IdentityFieldValue::Image(()),
        ],
    );
    let command = ClientCommand::ProvideJudgement(state);
    match connector(true).handle_command_at(SinkState::Open, Timestamp(1000), command) {
        ClientStep::ProvideJudgement(message) => {
            assert_eq!(message.event, EventType::JudgementResult);
            assert_eq!(message.data.address, address("x"));
            assert_eq!(message.data.judgement, Judgement::Reasonable);
            assert_eq!(message.data.verified.len(), 2);
            assert_eq!(message.data.verified[0].account_ty, AccountType::Email);
            assert_eq!(message.data.verified[0].value, "a@b");
        }
        _ => panic!("no judgement"),
    }
}

#[test]
fn requests_are_sent_while_the_watcher_is_heard_from() {
    let connector = connector(true);
    for (command, event) in [
        (ClientCommand::RequestPendingJudgements, EventType::PendingJudgementsRequest),
        (ClientCommand::RequestDisplayNames, EventType::DisplayNamesRequest),
    ] {
        match connector.handle_command_at(SinkState::Open, Timestamp(1120), command.clone()) {
            ClientStep::Request(message) => {
                assert_eq!(message, ResponseMessage { event, data: () })
            }
            _ => panic!("no request"),
        }
        assert!(matches!(
            connector.handle_command_at(SinkState::Open, Timestamp(1121), command.clone()),
            ClientStep::Reconnect
        ));
        assert!(matches!(
            connector.handle_command_at(SinkState::Open, Timestamp(999), command.clone()),
            ClientStep::Reconnect
        ));
        assert!(matches!(
            connector.handle_command_at(SinkState::Closed, Timestamp(1000), command.clone()),
            ClientStep::Reconnect
        ));
        assert!(matches!(
            connector.handle_command_at(SinkState::Missing, Timestamp(9999), command),
            ClientStep::Forward(_)
        ));
    }
}

#[test]
fn commands_are_handled_by_the_clock() {
    let names = DisplayNameVerifier::new(DisplayNameConfig { enabled: true });
    let fresh = Connector::new(ChainName::Polkadot, names, Timestamp::now());
    assert!(matches!(
        fresh.handle_command(SinkState::Open, ClientCommand::RequestDisplayNames),
        ClientStep::Request(_)
    ));
    let stale = Connector::new(ChainName::Polkadot, names, Timestamp(0));
    assert!(matches!(
        stale.handle_command(SinkState::Open, ClientCommand::RequestDisplayNames),
        ClientStep::Reconnect
    ));
    let ahead = Connector::new(ChainName::Polkadot, names, Timestamp(u64::MAX));
    assert!(matches!(
        ahead.handle_command(SinkState::Open, ClientCommand::RequestDisplayNames),
        ClientStep::Reconnect
    ));
    assert!(matches!(
        ahead.handle_command(SinkState::Missing, ClientCommand::RequestDisplayNames),
        ClientStep::Forward(_)
    ));
}

#[test]
fn messages_renew_the_connection() {
    let mut connector = connector(true);
    begin(&mut connector, WatcherMessage::PendingJudgementsRequests(vec![]));
    assert_eq!(connector.last_watcher_msg, Timestamp(2000));
    assert_eq!(connector.network, ChainName::Kusama);
    connector.handle_message(WatcherMessage::PendingJudgementsRequests(vec![]));
    assert!(connector.last_watcher_msg.raw() > 2000);
}

fn ack(result: &str, of: Option<&str>) -> WatcherMessage {
    WatcherMessage::Ack(AckResponse { result: result.to_string(), address: of.map(address) })
}

#[test]
fn given_judgements_are_noted() {
    let mut connector = connector(true);
    match begin(&mut connector, ack("judgement given", Some("x"))) {
        WatcherStep::SetJudged(judged) => assert_eq!(judged, context("x")),
        _ => panic!("not noted"),
    }
    assert!(matches!(
        begin(&mut connector, ack("The JUDGEMENT Given.", Some("x"))),
        WatcherStep::SetJudged(_)
    ));
    assert!(matches!(
        begin(&mut connector, ack("Judgement given \u{c9}", Some("x"))),
        WatcherStep::SetJudged(_)
    ));
    assert!(matches!(
        begin(&mut connector, ack("judgement given", None)),
        WatcherStep::MissingAddress
    ));
    assert!(matches!(
        begin(&mut connector, ack("judgement  given", Some("x"))),
        WatcherStep::Finished
    ));
    assert!(matches!(begin(&mut connector, ack("", None)), WatcherStep::Finished));
}

#[test]
fn new_requests_are_inserted_and_their_name_is_checked() {
    let mut connector = connector(true);
    let step = begin(&mut connector, WatcherMessage::NewJudgementRequest(request("x", "0x416c")));
    let task = match step {
        WatcherStep::FetchState(task) => task,
        _ => panic!("no lookup"),
    };
    assert_eq!(task.context, context("x"));
    let task = match task.resume(Ok(None)) {
        WatcherStep::AddRequest(task) => task,
        _ => panic!("no insertion"),
    };
    assert_eq!(task.state.context, context("x"));
    assert_eq!(task.state.display_name(), Some("Al"));
    assert_eq!(task.state.fields.len(), 2);
    let task = match task.resume(Ok(true)) {
        WatcherStep::FetchDisplayNames(task) => task,
        _ => panic!("no check"),
    };
    assert_eq!(task.name, "Al");
    let other = DisplayNameEntry { context: context("y"), display_name: "Al".to_string() };
    let own = DisplayNameEntry { context: context("x"), display_name: "Al".to_string() };
    let task = match task.resume(Ok(vec![own, other.clone()]), &vec![true, true]) {
        WatcherStep::InsertViolations(task) => task,
        _ => panic!("no violations"),
    };
    assert_eq!(task.context, context("x"));
    assert_eq!(task.violations, vec![other]);
    assert!(matches!(task.resume(Ok(())), WatcherStep::Finished));
}

#[test]
fn names_like_no_other_are_noted_as_valid() {
    let mut connector = connector(true);
    let step = begin(&mut connector, WatcherMessage::NewJudgementRequest(request("x", "Al")));
    if let WatcherStep::FetchState(task) = step {
        if let WatcherStep::AddRequest(task) = task.resume(Ok(None)) {
            if let WatcherStep::FetchDisplayNames(task) = task.resume(Ok(true)) {
                if let WatcherStep::SetDisplayNameValid(task) = task.resume(Ok(vec![]), &vec![]) {
                    assert_eq!(task.state.context, context("x"));
                    assert!(matches!(task.resume(Ok(())), WatcherStep::Finished));
                    return;
                }
            }
        }
    }
    panic!("not noted");
}

#[test]
fn names_are_left_alone_where_nothing_changed_or_the_check_is_off() {
    for (checks_names, modified) in [(true, false), (false, true), (false, false)] {
        let mut connector = connector(checks_names);
        let step = begin(&mut connector, WatcherMessage::NewJudgementRequest(request("x", "Al")));
        let task = match step {
            WatcherStep::FetchState(task) => task,
            _ => panic!("no lookup"),
        };
        let task = match task.resume(Ok(None)) {
            WatcherStep::AddRequest(task) => task,
            _ => panic!("no insertion"),
        };
        assert!(matches!(task.resume(Ok(modified)), WatcherStep::Finished));
    }
}

#[test]
fn repeated_requests_are_skipped_in_order() {
    let mut connector = connector(true);
    let requests = vec![request("x", "0x416c"), request("y", "Bob"), request("z", "Eve")];
    let mut step =
        begin(&mut connector, WatcherMessage::PendingJudgementsRequests(requests.clone()));
    let mut looked_up = vec![];
    loop {
        match step {
            WatcherStep::FetchState(task) => {
                let place = looked_up.len();
                looked_up.push(task.context.address.as_str().to_string());
                let mut accounts = requests[place].accounts.clone();
                accounts.decode_display_name();
                let state = JudgementState::new(task.context.clone(), accounts.into_fields());
                step = task.resume(Ok(Some(state)));
            }
            WatcherStep::Finished => break,
            _ => panic!("changed something"),
        }
    }
    assert_eq!(looked_up, vec!["x", "y", "z"]);
}

#[test]
fn changed_requests_are_inserted_again() {
    let mut connector = connector(true);
    let step = begin(&mut connector, WatcherMessage::NewJudgementRequest(request("x", "Al")));
    let former = JudgementState::new(context("x"), request("x", "Bob").accounts.into_fields());
    match step {
        WatcherStep::FetchState(task) => match task.resume(Ok(Some(former))) {
            WatcherStep::AddRequest(task) => {
                assert_eq!(task.state.display_name(), Some("Al"));
                assert!(!task.state.check_full_verification());
            }
            _ => panic!("not inserted"),
        },
        _ => panic!("no lookup"),
    }
}

#[test]
fn listed_requests_are_handled_as_if_alone() {
    // The kinds of step that each request takes, until it finishes.
    let kinds = |message: WatcherMessage| {
        let mut connector = connector(true);
        let mut step = begin(&mut connector, message);
        let mut kinds = vec![];
        loop {
            step = match step {
                WatcherStep::FetchState(task) => {
                    kinds.push(format!("fetch {}", task.context.address.as_str()));
                    task.resume(Ok(None))
                }
                WatcherStep::AddRequest(task) => {
                    kinds.push(format!("add {}", task.state.context.address.as_str()));
                    task.resume(Ok(true))
                }
                WatcherStep::FetchDisplayNames(task) => {
                    kinds.push(format!("check {}", task.name));
                    task.resume(Ok(vec![]), &vec![])
                }
                WatcherStep::SetDisplayNameValid(task) => {
                    kinds.push("valid".to_string());
                    task.resume(Ok(()))
                }
                WatcherStep::Finished => return kinds,
                _ => panic!("unexpected step"),
            };
        }
    };
    let first = kinds(WatcherMessage::NewJudgementRequest(request("x", "Al")));
    let second = kinds(WatcherMessage::NewJudgementRequest(request("y", "Bob")));
    let both = kinds(WatcherMessage::PendingJudgementsRequests(vec![
        request("x", "Al"),
        request("y", "Bob"),
    ]));
    assert_eq!(first, vec!["fetch x", "add x", "check Al", "valid"]);
    assert_eq!(both, [first, second].concat());
}

#[test]
fn a_failed_call_ends_the_handling() {
    let mut connector = connector(true);
    let message =
        WatcherMessage::PendingJudgementsRequests(vec![request("x", "Al"), request("y", "Bob")]);
    let fetch = |connector: &mut Connector| match begin(connector, message.clone()) {
        WatcherStep::FetchState(task) => task,
        _ => panic!("no lookup"),
    };
    let task = fetch(&mut connector);
    assert!(matches!(task.resume(Err(DatabaseFailure)), WatcherStep::Failed));
    let insert = |connector: &mut Connector| match fetch(connector).resume(Ok(None)) {
        WatcherStep::AddRequest(task) => task,
        _ => panic!("no insertion"),
    };
    let task = insert(&mut connector);
    assert!(matches!(task.resume(Err(DatabaseFailure)), WatcherStep::Failed));
    let check = |connector: &mut Connector| match insert(connector).resume(Ok(true)) {
        WatcherStep::FetchDisplayNames(task) => task,
        _ => panic!("no check"),
    };
    let task = check(&mut connector);
    assert!(matches!(task.resume(Err(DatabaseFailure), &vec![]), WatcherStep::Failed));
    match check(&mut connector).resume(Ok(vec![]), &vec![]) {
        WatcherStep::SetDisplayNameValid(task) => {
            assert!(matches!(task.resume(Err(DatabaseFailure)), WatcherStep::Failed))
        }
        _ => panic!("not valid"),
    }
    match check(&mut connector).resume(Ok(vec![]), &vec![]) {
        WatcherStep::SetDisplayNameValid(task) => match task.resume(Ok(())) {
            WatcherStep::FetchState(task) => assert_eq!(task.context, context("y")),
            _ => panic!("second request not reached"),
        },
        _ => panic!("not valid"),
    }
}

#[test]
fn display_names_are_inserted_in_order() {
    let mut connector = connector(true);
    let raw = |of: &str, name: &str| DisplayNameEntryRaw {
        address: address(of),
        display_name: name.to_string(),
    };
    let message = WatcherMessage::ActiveDisplayNames(vec![raw("x", "0x416c"), raw("y", "Bob")]);
    let mut inserted = vec![];
    let mut step = begin(&mut connector, message.clone());
    loop {
        match step {
            WatcherStep::InsertDisplayName(task) => {
                inserted.push(task.entry.clone());
                step = task.resume(Ok(()));
            }
            WatcherStep::Finished => break,
            _ => panic!("unexpected step"),
        }
    }
    assert_eq!(
        inserted,
        vec![
            DisplayNameEntry { context: context("x"), display_name: "Al".to_string() },
            DisplayNameEntry { context: context("y"), display_name: "Bob".to_string() },
        ]
    );
    match begin(&mut connector, message) {
        WatcherStep::InsertDisplayName(task) => {
            assert!(matches!(task.resume(Err(DatabaseFailure)), WatcherStep::Failed))
        }
        _ => panic!("no insertion"),
    }
}

#[test]
fn completed_states_are_provided_in_order() {
    let states = vec![
        JudgementState::new(context("x"), vec![]),
        JudgementState::new(context("y"), vec![]),
    ];
    let commands = provide_judgements(states.clone());
    assert_eq!(commands.len(), 2);
    for (command, state) in commands.iter().zip(states) {
        match command {
            ClientCommand::ProvideJudgement(provided) => assert_eq!(provided, &state),
            _ => panic!("no judgement"),
        }
    }
}

#[test]
fn reconnection_is_retried_and_reported() {
    let mut reconnection = Reconnection::new();
    for _ in 0..9 {
        assert_eq!(reconnection.attempted(false), ReconnectStep::Retry { wait: 10 });
    }
    assert_eq!(
        reconnection.attempted(false),
        ReconnectStep::ReportAndRetry { attempts: 10, wait: 10 }
    );
    assert_eq!(
        reconnection.attempted(false),
        ReconnectStep::ReportAndRetry { attempts: 11, wait: 10 }
    );
    assert_eq!(reconnection.attempted(true), ReconnectStep::Connected);
}
