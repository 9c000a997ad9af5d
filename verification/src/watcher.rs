//! The exchange with the watcher, which reports judgement requests and issues
//! the judgements on chain.
use crate::database::DatabaseFailure;
use crate::display_name::{
    DisplayNameEntry, DisplayNameEntryRaw, DisplayNameVerdict, DisplayNameVerifier,
    NameEntryModel, RawNameModel, VerdictModel,
};
use crate::hex_text;
use crate::identity::{
    AccountType, Accounts, ChainAddress, ChainName, ContextModel, FieldValueModel, IdentityContext,
};
use crate::judgement::{JudgementState, StateModel, VerifiedEntry};
use crate::text;
use crate::time::Timestamp;
use std::collections::VecDeque;
use vstd::prelude::*;

verus! {

/// Seconds within which the watcher is expected to be heard from.
pub const HEARTBEAT_INTERVAL: u64 = 60;

/// Seconds to wait before the next attempt to reconnect.
pub const RECONNECTION_TIMEOUT: u64 = 10;

/// Seconds between two requests for pending judgements.
pub const PENDING_JUDGEMENTS_INTERVAL: u64 = 120;

/// Seconds between two requests for display names.
pub const DISPLAY_NAMES_INTERVAL: u64 = 60;

/// Seconds between two looks for identities to judge.
pub const JUDGEMENT_CANDIDATES_INTERVAL: u64 = 10;

/// A message of the watcher protocol.
#[derive(Debug, PartialEq, Eq)]
pub struct ResponseMessage<T> {
    pub event: EventType,
    pub data: T,
}

impl<T: Clone> Clone for ResponseMessage<T> {
    fn clone(&self) -> (copy: Self)
        ensures
            copy.event == self.event,
            cloned::<T>(self.data, copy.data),
    {
        ResponseMessage { event: self.event, data: self.data.clone() }
    }
}

/// The kinds of message of the watcher protocol.
#[derive(Debug, Clone, Copy, PartialEq, Eq, Structural)]
pub enum EventType {
    Ack,
    Error,
    NewJudgementRequest,
    JudgementResult,
    PendingJudgementsRequest,
    PendingJudgementsResponse,
    DisplayNamesRequest,
    DisplayNamesResponse,
}

/// What the data of a message from the watcher is to be read as.
#[derive(Debug, Clone, Copy, PartialEq, Eq, Structural)]
pub enum Payload {
    /// An [`AckResponse`], to be handled as [`WatcherMessage::Ack`].
    Ack,
    /// A [`JudgementRequest`], to be handled as
    /// [`WatcherMessage::NewJudgementRequest`].
    NewJudgementRequest,
    /// A list of [`JudgementRequest`], to be handled as
    /// [`WatcherMessage::PendingJudgementsRequests`].
    PendingJudgements,
    /// A list of [`DisplayNameEntryRaw`], to be handled as
    /// [`WatcherMessage::ActiveDisplayNames`].
    DisplayNames,
    /// An error, to be reported only.
    Error,
    /// Nothing that the watcher is expected to send.
    Unrecognized,
}

impl EventType {
    /// What the data of a message of the kind is to be read as, where the
    /// watcher sends it.
    pub fn payload(&self) -> (payload: Payload)
        ensures
            payload == match self {
                EventType::Ack => Payload::Ack,
                EventType::Error => Payload::Error,
                EventType::NewJudgementRequest => Payload::NewJudgementRequest,
                EventType::PendingJudgementsResponse => Payload::PendingJudgements,
                EventType::DisplayNamesResponse => Payload::DisplayNames,
                EventType::JudgementResult => Payload::Unrecognized,
                EventType::PendingJudgementsRequest => Payload::Unrecognized,
                EventType::DisplayNamesRequest => Payload::Unrecognized,
            },
    {
        match self {
            EventType::Ack => Payload::Ack,
            EventType::Error => Payload::Error,
            EventType::NewJudgementRequest => Payload::NewJudgementRequest,
            EventType::PendingJudgementsResponse => Payload::PendingJudgements,
            EventType::DisplayNamesResponse => Payload::DisplayNames,
            _ => Payload::Unrecognized,
        }
    }
}

/// The judgements that the registrar gives.
#[derive(Debug, Clone, Copy, PartialEq, Eq, Structural)]
pub enum Judgement {
    Reasonable,
    Erroneous,
}

/// The judgement on an identity, as it is sent to the watcher.
#[derive(Debug)]
pub struct JudgementResponse {
    pub address: ChainAddress,
    pub judgement: Judgement,
    pub verified: Vec<VerifiedEntry>,
}

impl Clone for JudgementResponse {
    fn clone(&self) -> (copy: Self)
        ensures
            copy.address@ == self.address@,
            copy.judgement == self.judgement,
            copy.verified@.map_values(|entry: VerifiedEntry| entry@) == self.verified@.map_values(
                |entry: VerifiedEntry| entry@,
            ),
    {
        let verified = self.verified.clone();
        assert(verified@.map_values(|entry: VerifiedEntry| entry@) =~= self.verified@.map_values(
            |entry: VerifiedEntry| entry@,
        ));
        JudgementResponse { address: self.address.clone(), judgement: self.judgement, verified }
    }
}

/// The acknowledgement of the watcher.
#[derive(Debug)]
pub struct AckResponse {
    pub result: String,
    pub address: Option<ChainAddress>,
}

/// What an optional address holds.
pub open spec fn address_model(address: Option<ChainAddress>) -> Option<Seq<char>> {
    match address {
        Some(address) => Some(address@),
        None => None,
    }
}

impl Clone for AckResponse {
    fn clone(&self) -> (copy: Self)
        ensures
            copy.result@ == self.result@,
            address_model(copy.address) == address_model(self.address),
    {
        AckResponse {
            result: self.result.clone(),
            address: match &self.address {
                Some(address) => Some(address.clone()),
                None => None,
            },
        }
    }
}

/// A request to judge the identity at the address.
#[derive(Debug)]
pub struct JudgementRequest {
    pub address: ChainAddress,
    pub accounts: Accounts,
}

/// What a [`JudgementRequest`] holds.
#[verifier::ext_equal]
pub struct RequestModel {
    pub address: Seq<char>,
    pub accounts: Seq<(AccountType, Seq<char>)>,
}

impl View for JudgementRequest {
    type V = RequestModel;

    open spec fn view(&self) -> RequestModel {
        RequestModel { address: self.address@, accounts: self.accounts@ }
    }
}

impl Clone for JudgementRequest {
    fn clone(&self) -> (copy: Self)
        ensures
            copy@ == self@,
    {
        JudgementRequest { address: self.address.clone(), accounts: self.accounts.clone() }
    }
}

/// What the watcher tells.
#[derive(Debug)]
pub enum WatcherMessage {
    Ack(AckResponse),
    NewJudgementRequest(JudgementRequest),
    PendingJudgementsRequests(Vec<JudgementRequest>),
    ActiveDisplayNames(Vec<DisplayNameEntryRaw>),
}

/// What a [`WatcherMessage`] holds.
pub enum WatcherMessageModel {
    Ack(Seq<char>, Option<Seq<char>>),
    NewJudgementRequest(RequestModel),
    PendingJudgementsRequests(Seq<RequestModel>),
    ActiveDisplayNames(Seq<RawNameModel>),
}

/// What each request of a list holds.
pub open spec fn request_models(requests: Seq<JudgementRequest>) -> Seq<RequestModel> {
    requests.map_values(|request: JudgementRequest| request@)
}

/// What each name of a list holds.
pub open spec fn raw_name_models(names: Seq<DisplayNameEntryRaw>) -> Seq<RawNameModel> {
    names.map_values(|name: DisplayNameEntryRaw| name@)
}

impl View for WatcherMessage {
    type V = WatcherMessageModel;

    open spec fn view(&self) -> WatcherMessageModel {
        match self {
            WatcherMessage::Ack(data) => WatcherMessageModel::Ack(
                data.result@,
                address_model(data.address),
            ),
            WatcherMessage::NewJudgementRequest(request) =>
                WatcherMessageModel::NewJudgementRequest(request@),
            WatcherMessage::PendingJudgementsRequests(requests) =>
                WatcherMessageModel::PendingJudgementsRequests(request_models(requests@)),
            WatcherMessage::ActiveDisplayNames(names) => WatcherMessageModel::ActiveDisplayNames(
                raw_name_models(names@),
            ),
        }
    }
}

impl Clone for WatcherMessage {
    fn clone(&self) -> (copy: Self)
        ensures
            copy@ == self@,
    {
        match self {
            WatcherMessage::Ack(data) => WatcherMessage::Ack(data.clone()),
            WatcherMessage::NewJudgementRequest(request) => WatcherMessage::NewJudgementRequest(
                request.clone(),
            ),
            WatcherMessage::PendingJudgementsRequests(requests) => {
                let copies = requests.clone();
                assert(request_models(copies@) =~= request_models(requests@));
                WatcherMessage::PendingJudgementsRequests(copies)
            },
            WatcherMessage::ActiveDisplayNames(names) => {
                let copies = names.clone();
                assert(raw_name_models(copies@) =~= raw_name_models(names@));
                WatcherMessage::ActiveDisplayNames(copies)
            },
        }
    }
}

/// What is to be told to the watcher.
#[derive(Debug)]
pub enum ClientCommand {
    ProvideJudgement(JudgementState),
    RequestPendingJudgements,
    RequestDisplayNames,
}

/// What a [`ClientCommand`] holds.
pub enum ClientCommandModel {
    ProvideJudgement(StateModel),
    RequestPendingJudgements,
    RequestDisplayNames,
}

impl View for ClientCommand {
    type V = ClientCommandModel;

    open spec fn view(&self) -> ClientCommandModel {
        match self {
            ClientCommand::ProvideJudgement(state) => ClientCommandModel::ProvideJudgement(state@),
            ClientCommand::RequestPendingJudgements => ClientCommandModel::RequestPendingJudgements,
            ClientCommand::RequestDisplayNames => ClientCommandModel::RequestDisplayNames,
        }
    }
}

impl Clone for ClientCommand {
    fn clone(&self) -> (copy: Self)
        ensures
            copy@ == self@,
    {
        match self {
            ClientCommand::ProvideJudgement(state) => ClientCommand::ProvideJudgement(
                state.clone(),
            ),
            ClientCommand::RequestPendingJudgements => ClientCommand::RequestPendingJudgements,
            ClientCommand::RequestDisplayNames => ClientCommand::RequestDisplayNames,
        }
    }
}

/// The commands that provide the judgements on the identities, in order.
pub fn provide_judgements(completed: Vec<JudgementState>) -> (commands: Vec<ClientCommand>)
    ensures
        commands@.map_values(|command: ClientCommand| command@) == completed@.map_values(
            |state: JudgementState| ClientCommandModel::ProvideJudgement(state@),
        ),
{
    let ghost all = completed@;
    let mut commands: Vec<ClientCommand> = Vec::new();
    for state in it: completed
        invariant
            it.seq() == all,
            commands@.map_values(|command: ClientCommand| command@) == all.map_values(
                |s: JudgementState| ClientCommandModel::ProvideJudgement(s@),
            ).take(it.index() as int),
    {
        let ghost before = commands@;
        commands.push(ClientCommand::ProvideJudgement(state));
        assert(commands@.map_values(|command: ClientCommand| command@) =~= before.map_values(
            |command: ClientCommand| command@,
        ).push(ClientCommandModel::ProvideJudgement(state@)));
    }
    commands
}

/// The outgoing half of the connection to the watcher.
#[derive(Debug, Clone, Copy, PartialEq, Eq, Structural)]
pub enum SinkState {
    /// There is none.
    Missing,
    /// It is closed.
    Closed,
    /// It takes messages.
    Open,
}

/// What is to be done about a command for the watcher.
#[derive(Debug)]
pub enum ClientStep {
    /// Hand the command to whoever stands in for the watcher.
    Forward(ClientCommand),
    /// Drop the command and reset the connection.
    Reconnect,
    /// Send the judgement.
    ProvideJudgement(ResponseMessage<JudgementResponse>),
    /// Send the request.
    Request(ResponseMessage<()>),
}

/// What a [`ClientStep`] holds.
#[verifier::ext_equal]
pub enum ClientStepModel {
    Forward(ClientCommandModel),
    Reconnect,
    ProvideJudgement {
        event: EventType,
        address: Seq<char>,
        judgement: Judgement,
        verified: Seq<(AccountType, Seq<char>)>,
    },
    Request { event: EventType },
}

impl View for ClientStep {
    type V = ClientStepModel;

    open spec fn view(&self) -> ClientStepModel {
        match self {
            ClientStep::Forward(command) => ClientStepModel::Forward(command@),
            ClientStep::Reconnect => ClientStepModel::Reconnect,
            ClientStep::ProvideJudgement(message) => ClientStepModel::ProvideJudgement {
                event: message.event,
                address: message.data.address@,
                judgement: message.data.judgement,
                verified: message.data.verified@.map_values(|entry: VerifiedEntry| entry@),
            },
            ClientStep::Request(message) => ClientStepModel::Request { event: message.event },
        }
    }
}

/// The message that carries a command to the watcher.
pub open spec fn outgoing(command: ClientCommandModel) -> ClientStepModel {
    match command {
        ClientCommandModel::ProvideJudgement(state) => ClientStepModel::ProvideJudgement {
            event: EventType::JudgementResult,
            address: state.context.address,
            judgement: Judgement::Reasonable,
            verified: state.accounts(),
        },
        ClientCommandModel::RequestPendingJudgements => ClientStepModel::Request {
            event: EventType::PendingJudgementsRequest,
        },
        ClientCommandModel::RequestDisplayNames => ClientStepModel::Request {
            event: EventType::DisplayNamesRequest,
        },
    }
}

/// The connection to the watcher of one network.
#[derive(Debug, Clone, Copy, PartialEq, Eq, Structural)]
pub struct Connector {
    pub network: ChainName,
    pub dn_verifier: DisplayNameVerifier,
    /// When the watcher was last heard from. If that is too long ago, the
    /// connection is reset.
    pub last_watcher_msg: Timestamp,
}

impl Connector {
    /// Whether the watcher was not heard from for two heartbeats, or the
    /// clock was set back behind its last message, so that this cannot be
    /// told.
    pub open spec fn is_stale(self, now: Timestamp) -> bool {
        ||| now.0 < self.last_watcher_msg.0
        ||| now.0 - self.last_watcher_msg.0 > HEARTBEAT_INTERVAL * 2
    }

    /// A connection that comes about at the given time.
    pub fn new(network: ChainName, dn_verifier: DisplayNameVerifier, now: Timestamp) -> (connector:
        Self)
        ensures
            connector == (Connector { network, dn_verifier, last_watcher_msg: now }),
    {
        Connector { network, dn_verifier, last_watcher_msg: now }
    }

    /// What is to be done about a command for the watcher. A connection that
    /// is closed or stale is reset.
    pub open spec fn command_step(
        self,
        sink: SinkState,
        now: Timestamp,
        command: ClientCommandModel,
    ) -> ClientStepModel {
        match sink {
            SinkState::Missing => ClientStepModel::Forward(command),
            SinkState::Closed => ClientStepModel::Reconnect,
            SinkState::Open => if self.is_stale(now) {
                ClientStepModel::Reconnect
            } else {
                outgoing(command)
            },
        }
    }

    /// Says what is to be done at the given time about a command for the
    /// watcher.
    pub fn handle_command_at(&self, sink: SinkState, now: Timestamp, msg: ClientCommand) -> (step:
        ClientStep)
        ensures
            step@ == self.command_step(sink, now, msg@),
            sink is Open && self.last_watcher_msg.0 <= now.0 <= self.last_watcher_msg.0 + 120 ==> {
                match msg {
                    ClientCommand::ProvideJudgement(state) => {
                        &&& step matches ClientStep::ProvideJudgement(message)
                        &&& message.event is JudgementResult
                        &&& message.data.judgement is Reasonable
                        &&& message.data.address@ == state.context.address@
                        &&& message.data.verified@.len() == state.fields@.len()
                    },
                    ClientCommand::RequestPendingJudgements => {
                        &&& step matches ClientStep::Request(message)
                        &&& message.event is PendingJudgementsRequest
                    },
                    ClientCommand::RequestDisplayNames => {
                        &&& step matches ClientStep::Request(message)
                        &&& message.event is DisplayNamesRequest
                    },
                }
            },
    {
        match sink {
            SinkState::Missing => return ClientStep::Forward(msg),
            SinkState::Closed => return ClientStep::Reconnect,
            SinkState::Open => {},
        }
        if now.raw() < self.last_watcher_msg.raw() || now.raw() - self.last_watcher_msg.raw()
            > HEARTBEAT_INTERVAL * 2 {
            return ClientStep::Reconnect;
        }
        match msg {
            ClientCommand::ProvideJudgement(state) => {
                let verified = state.as_verified_entries();
                assert(verified@.len() == verified@.map_values(|entry: VerifiedEntry| entry@).len());
                ClientStep::ProvideJudgement(
                    ResponseMessage {
                        event: EventType::JudgementResult,
                        data: JudgementResponse {
                            address: state.context.address,
                            judgement: Judgement::Reasonable,
                            verified,
                        },
                    },
                )
            },
            ClientCommand::RequestPendingJudgements => ClientStep::Request(
                ResponseMessage { event: EventType::PendingJudgementsRequest, data: () },
            ),
            ClientCommand::RequestDisplayNames => ClientStep::Request(
                ResponseMessage { event: EventType::DisplayNamesRequest, data: () },
            ),
        }
    }

    /// Says what is to be done now about a command for the watcher. The time
    /// rests on the clock of the host.
    pub fn handle_command(&self, sink: SinkState, msg: ClientCommand) -> (step: ClientStep)
        ensures
            exists|now: Timestamp| #[trigger] self.command_step(sink, now, msg@) == step@,
    {
        self.handle_command_at(sink, Timestamp::now(), msg)
    }

    /// Begins to handle a message that came in from the watcher at the given
    /// time: says what is to be done first.
    pub fn handle_message_at(&mut self, msg: WatcherMessage, now: Timestamp) -> (step: WatcherStep)
        ensures
            *final(self) == (Connector { last_watcher_msg: now, ..*old(self) }),
            step@ == message_begun(old(self).network, old(self).dn_verifier, msg@),
    {
        self.last_watcher_msg = now;
        match msg {
            WatcherMessage::Ack(data) => {
                let lower = data.result.as_str().to_lowercase();
                if !text::contains(lower.as_str(), "judgement given") {
                    return WatcherStep::Finished;
                }
                match data.address {
                    Some(address) => WatcherStep::SetJudged(
                        IdentityContext::new(address, self.network),
                    ),
                    None => WatcherStep::MissingAddress,
                }
            },
            WatcherMessage::NewJudgementRequest(request) => {
                let mut rest: VecDeque<JudgementRequest> = VecDeque::new();
                rest.push_back(request);
                let pending = PendingRequests {
                    network: self.network,
                    dn_verifier: self.dn_verifier,
                    rest,
                };
                assert(pending@.rest =~= seq![request@]);
                pending.next()
            },
            WatcherMessage::PendingJudgementsRequests(requests) => {
                let ghost all = requests@;
                let mut rest: VecDeque<JudgementRequest> = VecDeque::new();
                for request in it: requests
                    invariant
                        it.seq() == all,
                        rest@ == all.take(it.index() as int),
                {
                    rest.push_back(request);
                }
                let pending = PendingRequests {
                    network: self.network,
                    dn_verifier: self.dn_verifier,
                    rest,
                };
                pending.next()
            },
            WatcherMessage::ActiveDisplayNames(names) => {
                let ghost all = names@;
                let mut rest: VecDeque<DisplayNameEntryRaw> = VecDeque::new();
                for name in it: names
                    invariant
                        it.seq() == all,
                        rest@ == all.take(it.index() as int),
                {
                    rest.push_back(name);
                }
                let pending = PendingNames { network: self.network, rest };
                pending.next()
            },
        }
    }

    /// Begins to handle a message that comes in from the watcher now: says
    /// what is to be done first. The time rests on the clock of the host.
    pub fn handle_message(&mut self, msg: WatcherMessage) -> (step: WatcherStep)
        ensures
            *final(self) == (Connector {
                last_watcher_msg: final(self).last_watcher_msg,
                ..*old(self)
            }),
            step@ == message_begun(old(self).network, old(self).dn_verifier, msg@),
    {
        self.handle_message_at(msg, Timestamp::now())
    }
}

/// How many attempts to reconnect may fail before that is reported.
pub const RECONNECTION_ATTEMPTS: u64 = 10;

/// What is to be done after an attempt to reconnect.
#[derive(Debug, Clone, Copy, PartialEq, Eq, Structural)]
pub enum ReconnectStep {
    /// The connection stands.
    Connected,
    /// Wait for so many seconds, then try again.
    Retry { wait: u64 },
    /// Report how many attempts failed, wait for so many seconds, then try
    /// again.
    ReportAndRetry { attempts: u64, wait: u64 },
}

/// The attempts to reconnect that failed so far.
#[derive(Debug, Clone, Copy, PartialEq, Eq, Structural)]
pub struct Reconnection {
    pub failed: u64,
}

impl Reconnection {
    /// No attempt was made yet.
    pub fn new() -> (reconnection: Self)
        ensures
            reconnection.failed == 0,
    {
        Reconnection { failed: 0 }
    }

    /// Says what is to be done after an attempt, which either connected or
    /// did not.
    pub fn attempted(&mut self, connected: bool) -> (step: ReconnectStep)
        requires
            old(self).failed < u64::MAX,
        ensures
            final(self).failed == if connected {
                old(self).failed as int
            } else {
                old(self).failed + 1
            },
            step == if connected {
                ReconnectStep::Connected
            } else if final(self).failed < RECONNECTION_ATTEMPTS {
                ReconnectStep::Retry { wait: RECONNECTION_TIMEOUT }
            } else {
                ReconnectStep::ReportAndRetry {
                    attempts: final(self).failed,
                    wait: RECONNECTION_TIMEOUT,
                }
            },
    {
        if connected {
            return ReconnectStep::Connected;
        }
        self.failed = self.failed + 1;
        if self.failed >= RECONNECTION_ATTEMPTS {
            ReconnectStep::ReportAndRetry { attempts: self.failed, wait: RECONNECTION_TIMEOUT }
        } else {
            ReconnectStep::Retry { wait: RECONNECTION_TIMEOUT }
        }
    }
}

/// Whether the acknowledgement says that a judgement was given.
pub open spec fn says_judgement_given(result: Seq<char>) -> bool {
    text::occurs("judgement given"@, text::lowercase(result))
}

/// What is to be done first about a message from the watcher of the network.
pub open spec fn message_begun(
    network: ChainName,
    dn_verifier: DisplayNameVerifier,
    message: WatcherMessageModel,
) -> WatcherStepModel {
    match message {
        WatcherMessageModel::Ack(result, address) => if !says_judgement_given(result) {
            WatcherStepModel::Finished
        } else {
            match address {
                Some(address) => WatcherStepModel::SetJudged(
                    ContextModel { address, chain: network },
                ),
                None => WatcherStepModel::MissingAddress,
            }
        },
        WatcherMessageModel::NewJudgementRequest(request) => (PendingRequestsModel {
            network,
            dn_verifier,
            rest: seq![request],
        }).next(),
        WatcherMessageModel::PendingJudgementsRequests(requests) => (PendingRequestsModel {
            network,
            dn_verifier,
            rest: requests,
        }).next(),
        WatcherMessageModel::ActiveDisplayNames(names) => (PendingNamesModel {
            network,
            rest: names,
        }).next(),
    }
}

/// What is to be done next about a message from the watcher. Each task goes
/// on with what came of it.
#[derive(Debug)]
pub enum WatcherStep {
    /// There is nothing else to do.
    Finished,
    /// The watcher says that a judgement was given, but not on whom.
    MissingAddress,
    /// A call to the database did not succeed. Nothing else is to be done.
    Failed,
    /// Mark the identity as judged. There is nothing else to do.
    SetJudged(IdentityContext),
    /// Look the state of the identity up.
    FetchState(RequestTask),
    /// Insert the state.
    AddRequest(InsertTask),
    /// Look the display names of the chain up and compare them with the name.
    FetchDisplayNames(NameCheckTask),
    /// Note the violations of the display name.
    InsertViolations(ViolationsTask),
    /// Note that the display name is valid.
    SetDisplayNameValid(ValidNameTask),
    /// Insert the display name.
    InsertDisplayName(NameTask),
}

/// What a [`WatcherStep`] holds.
#[verifier::ext_equal]
pub enum WatcherStepModel {
    Finished,
    MissingAddress,
    Failed,
    SetJudged(ContextModel),
    FetchState(RequestTaskModel),
    AddRequest(InsertTaskModel),
    FetchDisplayNames(NameCheckTaskModel),
    InsertViolations(ViolationsTaskModel),
    SetDisplayNameValid(ValidNameTaskModel),
    InsertDisplayName(NameTaskModel),
}

impl View for WatcherStep {
    type V = WatcherStepModel;

    open spec fn view(&self) -> WatcherStepModel {
        match self {
            WatcherStep::Finished => WatcherStepModel::Finished,
            WatcherStep::MissingAddress => WatcherStepModel::MissingAddress,
            WatcherStep::Failed => WatcherStepModel::Failed,
            WatcherStep::SetJudged(context) => WatcherStepModel::SetJudged(context@),
            WatcherStep::FetchState(task) => WatcherStepModel::FetchState(task@),
            WatcherStep::AddRequest(task) => WatcherStepModel::AddRequest(task@),
            WatcherStep::FetchDisplayNames(task) => WatcherStepModel::FetchDisplayNames(task@),
            WatcherStep::InsertViolations(task) => WatcherStepModel::InsertViolations(task@),
            WatcherStep::SetDisplayNameValid(task) => WatcherStepModel::SetDisplayNameValid(task@),
            WatcherStep::InsertDisplayName(task) => WatcherStepModel::InsertDisplayName(task@),
        }
    }
}

/// The requests that are still to be handled.
#[derive(Debug)]
pub struct PendingRequests {
    pub network: ChainName,
    pub dn_verifier: DisplayNameVerifier,
    pub rest: VecDeque<JudgementRequest>,
}

/// What [`PendingRequests`] hold.
#[verifier::ext_equal]
pub struct PendingRequestsModel {
    pub network: ChainName,
    pub dn_verifier: DisplayNameVerifier,
    pub rest: Seq<RequestModel>,
}

impl View for PendingRequests {
    type V = PendingRequestsModel;

    open spec fn view(&self) -> PendingRequestsModel {
        PendingRequestsModel {
            network: self.network,
            dn_verifier: self.dn_verifier,
            rest: request_models(self.rest@),
        }
    }
}

impl PendingRequestsModel {
    /// What is to be done about the first request: its display name is
    /// decoded, then the state of the identity is looked up.
    pub open spec fn next(self) -> WatcherStepModel {
        if self.rest.len() == 0 {
            WatcherStepModel::Finished
        } else {
            WatcherStepModel::FetchState(
                RequestTaskModel {
                    context: ContextModel { address: self.rest[0].address, chain: self.network },
                    accounts: crate::identity::accounts_decoded(self.rest[0].accounts),
                    pending: PendingRequestsModel { rest: self.rest.drop_first(), ..self },
                },
            )
        }
    }
}

impl PendingRequests {
    /// Says what is to be done about the first request.
    fn next(self) -> (step: WatcherStep)
        ensures
            step@ == self@.next(),
    {
        let mut rest = self.rest;
        let ghost all = rest@;
        match rest.pop_front() {
            Some(request) => {
                let mut accounts = request.accounts;
                accounts.decode_display_name();
                let pending = PendingRequests {
                    network: self.network,
                    dn_verifier: self.dn_verifier,
                    rest,
                };
                assert(request_models(all)[0] == request@);
                assert(pending@.rest =~= request_models(all).drop_first());
                WatcherStep::FetchState(
                    RequestTask {
                        context: IdentityContext::new(request.address, self.network),
                        accounts,
                        pending,
                    },
                )
            },
            None => WatcherStep::Finished,
        }
    }
}

/// A request, with its display name decoded, before the state of the identity
/// is known.
#[derive(Debug)]
pub struct RequestTask {
    pub context: IdentityContext,
    pub accounts: Accounts,
    pub pending: PendingRequests,
}

/// What a [`RequestTask`] holds.
#[verifier::ext_equal]
pub struct RequestTaskModel {
    pub context: ContextModel,
    pub accounts: Seq<(AccountType, Seq<char>)>,
    pub pending: PendingRequestsModel,
}

impl View for RequestTask {
    type V = RequestTaskModel;

    open spec fn view(&self) -> RequestTaskModel {
        RequestTaskModel {
            context: self.context@,
            accounts: self.accounts@,
            pending: self.pending@,
        }
    }
}

impl RequestTaskModel {
    /// Whether the request says nothing that the state found does not say.
    pub open spec fn is_known(self, found: Option<StateModel>) -> bool {
        found matches Some(state) && crate::judgement::same_fields(state.fields, self.accounts)
    }

    /// Whether the step is right once the state of the identity was looked
    /// up: a request with the same fields is left alone; for any other one a
    /// new state is to be inserted.
    pub open spec fn resumes_with(
        self,
        found: Result<Option<StateModel>, DatabaseFailure>,
        step: WatcherStepModel,
    ) -> bool {
        match found {
            Err(_) => step == WatcherStepModel::Failed,
            Ok(state) => if self.is_known(state) {
                step == self.pending.next()
            } else {
                step matches WatcherStepModel::AddRequest(task) && {
                    &&& task.state.is_fresh(
                        self.context,
                        crate::identity::accounts_fields(self.accounts),
                    )
                    &&& task.pending == self.pending
                }
            },
        }
    }
}

/// What the state that was looked up holds.
pub open spec fn found_model(
    found: Result<Option<JudgementState>, DatabaseFailure>,
) -> Result<Option<StateModel>, DatabaseFailure> {
    match found {
        Ok(Some(state)) => Ok(Some(state@)),
        Ok(None) => Ok(None),
        Err(failure) => Err(failure),
    }
}

impl RequestTask {
    /// Goes on once the state of the identity was looked up: `None` where
    /// there is none. The codes and the time of a new state rest on chance
    /// and on the clock.
    pub fn resume(self, found: Result<Option<JudgementState>, DatabaseFailure>) -> (step:
        WatcherStep)
        ensures
            self@.resumes_with(found_model(found), step@),
            found is Err ==> step is Failed,
            found matches Ok(None) ==> step is AddRequest,
            found matches Ok(Some(state)) ==> (step is AddRequest <==> state.fields@.len()
                != self.accounts@.len() || exists|a: int|
                0 <= a < self.accounts@.len() && !has_field_of(
                    state@,
                    #[trigger] self.accounts@[a],
                )),
    {
        proof {
            lemma_unchanged_is_known(self@, found_model(found));
        }
        match &found {
            Err(_) => return WatcherStep::Failed,
            Ok(Some(current)) => {
                if current.has_same_fields_as(&self.accounts) {
                    return self.pending.next();
                }
            },
            Ok(None) => {},
        }
        let state = JudgementState::new(self.context, self.accounts.into_fields());
        WatcherStep::AddRequest(InsertTask { state, pending: self.pending })
    }
}

/// A state that is to be inserted.
#[derive(Debug)]
pub struct InsertTask {
    pub state: JudgementState,
    pub pending: PendingRequests,
}

/// What an [`InsertTask`] holds.
#[verifier::ext_equal]
pub struct InsertTaskModel {
    pub state: StateModel,
    pub pending: PendingRequestsModel,
}

impl View for InsertTask {
    type V = InsertTaskModel;

    open spec fn view(&self) -> InsertTaskModel {
        InsertTaskModel { state: self.state@, pending: self.pending@ }
    }
}

impl InsertTaskModel {
    /// What is to be done once the state was inserted: if that changed
    /// anything and there is a name to check, the name is checked.
    pub open spec fn resumed(self, modified: Result<bool, DatabaseFailure>) -> WatcherStepModel {
        match (modified, self.pending.dn_verifier.checked_name(self.state)) {
            (Err(_), _) => WatcherStepModel::Failed,
            (Ok(true), Some(name)) => WatcherStepModel::FetchDisplayNames(
                NameCheckTaskModel { name, state: self.state, pending: self.pending },
            ),
            _ => self.pending.next(),
        }
    }
}

impl InsertTask {
    /// Goes on once the state was inserted. `modified` tells whether the
    /// entry of the identity is new or was changed.
    pub fn resume(self, modified: Result<bool, DatabaseFailure>) -> (step: WatcherStep)
        ensures
            step@ == self@.resumed(modified),
    {
        match modified {
            Err(_) => return WatcherStep::Failed,
            Ok(false) => return self.pending.next(),
            Ok(true) => {},
        }
        let name = match self.pending.dn_verifier.name_to_check(&self.state) {
            Some(name) => name.to_owned(),
            None => {
                return self.pending.next();
            },
        };
        WatcherStep::FetchDisplayNames(
            NameCheckTask { name, state: self.state, pending: self.pending },
        )
    }
}

/// A display name that is to be compared with those on the chain of the
/// state.
#[derive(Debug)]
pub struct NameCheckTask {
    pub name: String,
    pub state: JudgementState,
    pub pending: PendingRequests,
}

/// What a [`NameCheckTask`] holds.
#[verifier::ext_equal]
pub struct NameCheckTaskModel {
    pub name: Seq<char>,
    pub state: StateModel,
    pub pending: PendingRequestsModel,
}

impl View for NameCheckTask {
    type V = NameCheckTaskModel;

    open spec fn view(&self) -> NameCheckTaskModel {
        NameCheckTaskModel { name: self.name@, state: self.state@, pending: self.pending@ }
    }
}

impl NameCheckTaskModel {
    /// What is to be done once the names were compared.
    pub open spec fn resumed(
        self,
        current: Result<Seq<NameEntryModel>, DatabaseFailure>,
        similar: Seq<bool>,
    ) -> WatcherStepModel {
        match current {
            Err(_) => WatcherStepModel::Failed,
            Ok(names) => match self.pending.dn_verifier.verdict(self.state, names, similar) {
                VerdictModel::Unchecked => self.pending.next(),
                VerdictModel::Violations(violations) => WatcherStepModel::InsertViolations(
                    ViolationsTaskModel {
                        context: self.state.context,
                        violations,
                        pending: self.pending,
                    },
                ),
                VerdictModel::Valid => WatcherStepModel::SetDisplayNameValid(
                    ValidNameTaskModel { state: self.state, pending: self.pending },
                ),
            },
        }
    }
}

/// What the names that were looked up hold.
pub open spec fn names_model(
    current: Result<Vec<DisplayNameEntry>, DatabaseFailure>,
) -> Result<Seq<NameEntryModel>, DatabaseFailure> {
    match current {
        Ok(names) => Ok(crate::display_name::entry_models(names@)),
        Err(failure) => Err(failure),
    }
}

impl NameCheckTask {
    /// Goes on once the names in use on the chain were looked up and compared
    /// with the name. `similar` tells of each of them whether it is too
    /// similar.
    pub fn resume(
        self,
        current: Result<Vec<DisplayNameEntry>, DatabaseFailure>,
        similar: &Vec<bool>,
    ) -> (step: WatcherStep)
        requires
            current matches Ok(names) ==> similar@.len() == names@.len(),
        ensures
            step@ == self@.resumed(names_model(current), similar@),
    {
        let names = match current {
            Ok(names) => names,
            Err(_) => {
                return WatcherStep::Failed;
            },
        };
        match self.pending.dn_verifier.verify_display_name(&self.state, &names, similar) {
            DisplayNameVerdict::Unchecked => self.pending.next(),
            DisplayNameVerdict::Violations(violations) => WatcherStep::InsertViolations(
                ViolationsTask { context: self.state.context, violations, pending: self.pending },
            ),
            DisplayNameVerdict::Valid => WatcherStep::SetDisplayNameValid(
                ValidNameTask { state: self.state, pending: self.pending },
            ),
        }
    }
}

/// Violations that are to be noted.
#[derive(Debug)]
pub struct ViolationsTask {
    pub context: IdentityContext,
    pub violations: Vec<DisplayNameEntry>,
    pub pending: PendingRequests,
}

/// What a [`ViolationsTask`] holds.
#[verifier::ext_equal]
pub struct ViolationsTaskModel {
    pub context: ContextModel,
    pub violations: Seq<NameEntryModel>,
    pub pending: PendingRequestsModel,
}

impl View for ViolationsTask {
    type V = ViolationsTaskModel;

    open spec fn view(&self) -> ViolationsTaskModel {
        ViolationsTaskModel {
            context: self.context@,
            violations: crate::display_name::entry_models(self.violations@),
            pending: self.pending@,
        }
    }
}

impl ViolationsTaskModel {
    /// What is to be done once the violations were noted.
    pub open spec fn resumed(self, done: Result<(), DatabaseFailure>) -> WatcherStepModel {
        match done {
            Ok(_) => self.pending.next(),
            Err(_) => WatcherStepModel::Failed,
        }
    }
}

impl ViolationsTask {
    /// Goes on once the violations were noted.
    pub fn resume(self, done: Result<(), DatabaseFailure>) -> (step: WatcherStep)
        ensures
            step@ == self@.resumed(done),
    {
        match done {
            Ok(_) => self.pending.next(),
            Err(_) => WatcherStep::Failed,
        }
    }
}

/// A state whose display name is to be noted as valid.
#[derive(Debug)]
pub struct ValidNameTask {
    pub state: JudgementState,
    pub pending: PendingRequests,
}

/// What a [`ValidNameTask`] holds.
#[verifier::ext_equal]
pub struct ValidNameTaskModel {
    pub state: StateModel,
    pub pending: PendingRequestsModel,
}

impl View for ValidNameTask {
    type V = ValidNameTaskModel;

    open spec fn view(&self) -> ValidNameTaskModel {
        ValidNameTaskModel { state: self.state@, pending: self.pending@ }
    }
}

impl ValidNameTaskModel {
    /// What is to be done once the name was noted.
    pub open spec fn resumed(self, done: Result<(), DatabaseFailure>) -> WatcherStepModel {
        match done {
            Ok(_) => self.pending.next(),
            Err(_) => WatcherStepModel::Failed,
        }
    }
}

impl ValidNameTask {
    /// Goes on once the name was noted as valid.
    pub fn resume(self, done: Result<(), DatabaseFailure>) -> (step: WatcherStep)
        ensures
            step@ == self@.resumed(done),
    {
        match done {
            Ok(_) => self.pending.next(),
            Err(_) => WatcherStep::Failed,
        }
    }
}

/// The display names that are still to be inserted.
#[derive(Debug)]
pub struct PendingNames {
    pub network: ChainName,
    pub rest: VecDeque<DisplayNameEntryRaw>,
}

/// What [`PendingNames`] hold.
#[verifier::ext_equal]
pub struct PendingNamesModel {
    pub network: ChainName,
    pub rest: Seq<RawNameModel>,
}

impl View for PendingNames {
    type V = PendingNamesModel;

    open spec fn view(&self) -> PendingNamesModel {
        PendingNamesModel { network: self.network, rest: raw_name_models(self.rest@) }
    }
}

impl PendingNamesModel {
    /// What is to be done about the first name: it is decoded and inserted.
    pub open spec fn next(self) -> WatcherStepModel {
        if self.rest.len() == 0 {
            WatcherStepModel::Finished
        } else {
            WatcherStepModel::InsertDisplayName(
                NameTaskModel {
                    entry: NameEntryModel {
                        context: ContextModel {
                            address: self.rest[0].address,
                            chain: self.network,
                        },
                        display_name: hex_text::display_text(self.rest[0].display_name),
                    },
                    pending: PendingNamesModel { rest: self.rest.drop_first(), ..self },
                },
            )
        }
    }
}

impl PendingNames {
    /// Says what is to be done about the first name.
    fn next(self) -> (step: WatcherStep)
        ensures
            step@ == self@.next(),
    {
        let mut rest = self.rest;
        let ghost all = rest@;
        match rest.pop_front() {
            Some(first) => {
                let mut name = first;
                name.try_decode_hex();
                let pending = PendingNames { network: self.network, rest };
                assert(raw_name_models(all)[0] == first@);
                assert(pending@.rest =~= raw_name_models(all).drop_first());
                WatcherStep::InsertDisplayName(
                    NameTask {
                        entry: DisplayNameEntry {
                            context: IdentityContext::new(name.address, self.network),
                            display_name: name.display_name,
                        },
                        pending,
                    },
                )
            },
            None => WatcherStep::Finished,
        }
    }
}

/// A display name that is to be inserted.
#[derive(Debug)]
pub struct NameTask {
    pub entry: DisplayNameEntry,
    pub pending: PendingNames,
}

/// What a [`NameTask`] holds.
#[verifier::ext_equal]
pub struct NameTaskModel {
    pub entry: NameEntryModel,
    pub pending: PendingNamesModel,
}

impl View for NameTask {
    type V = NameTaskModel;

    open spec fn view(&self) -> NameTaskModel {
        NameTaskModel { entry: self.entry@, pending: self.pending@ }
    }
}

impl NameTaskModel {
    /// What is to be done once the name was inserted.
    pub open spec fn resumed(self, done: Result<(), DatabaseFailure>) -> WatcherStepModel {
        match done {
            Ok(_) => self.pending.next(),
            Err(_) => WatcherStepModel::Failed,
        }
    }
}

impl NameTask {
    /// Goes on once the name was inserted.
    pub fn resume(self, done: Result<(), DatabaseFailure>) -> (step: WatcherStep)
        ensures
            step@ == self@.resumed(done),
    {
        match done {
            Ok(_) => self.pending.next(),
            Err(_) => WatcherStep::Failed,
        }
    }
}

/// The judgement that is sent on an identity is always that it is reasonable,
/// whatever the state holds. It is on the address of the identity, and
/// vouches for each field in its place: for its kind and its value, or for no
/// value where the kind keeps none.
pub proof fn law_sent_judgement_is_reasonable(state: StateModel, i: int)
    requires
        0 <= i < state.fields.len(),
    ensures
        outgoing(ClientCommandModel::ProvideJudgement(state)) matches
            ClientStepModel::ProvideJudgement { event, address, judgement, verified } && {
            &&& event is JudgementResult
            &&& judgement is Reasonable
            &&& address == state.context.address
            &&& verified.len() == state.fields.len()
            &&& verified[i] == match state.fields[i].value {
                FieldValueModel::LegalName(v) => (AccountType::LegalName, v),
                FieldValueModel::DisplayName(v) => (AccountType::DisplayName, v),
                FieldValueModel::Email(v) => (AccountType::Email, v),
                FieldValueModel::Web(v) => (AccountType::Web, v),
                FieldValueModel::Twitter(v) => (AccountType::Twitter, v),
                FieldValueModel::Matrix(v) => (AccountType::Matrix, v),
                FieldValueModel::PGPFingerprint => (
                    AccountType::PGPFingerprint,
                    Seq::<char>::empty(),
                ),
                FieldValueModel::Image => (AccountType::Image, Seq::<char>::empty()),
                FieldValueModel::Additional => (AccountType::Additional, Seq::<char>::empty()),
            }
        },
{
    crate::judgement::law_state_gives_out_its_fields(state, i);
}

/// A judgement and each request go out over an open connection on which the
/// watcher was heard from within the last two minutes, each as its own kind
/// of message; the judgement is that the identity is reasonable, even where
/// there is no field.
pub proof fn law_commands_go_out_while_the_watcher_is_heard(
    connector: Connector,
    now: Timestamp,
    state: StateModel,
)
    requires
        connector.last_watcher_msg.0 <= now.0 <= connector.last_watcher_msg.0 + 120,
    ensures
        connector.command_step(
            SinkState::Open,
            now,
            ClientCommandModel::ProvideJudgement(state),
        ) matches ClientStepModel::ProvideJudgement { event, address, judgement, verified } && {
            &&& event is JudgementResult
            &&& judgement is Reasonable
            &&& address == state.context.address
            &&& verified.len() == state.fields.len()
        },
        connector.command_step(SinkState::Open, now, ClientCommandModel::ProvideJudgement(state))
            == outgoing(ClientCommandModel::ProvideJudgement(state)),
        connector.command_step(SinkState::Open, now, ClientCommandModel::RequestPendingJudgements)
            == (ClientStepModel::Request { event: EventType::PendingJudgementsRequest }),
        connector.command_step(SinkState::Open, now, ClientCommandModel::RequestDisplayNames) == (
        ClientStepModel::Request { event: EventType::DisplayNamesRequest }),
{
}

/// No command goes out over a connection that is closed, or on which the
/// watcher was silent for more than two minutes, or since a time still to
/// come: the connection is reset. Without one, the command is handed on as it
/// is, whatever the time.
pub proof fn law_silent_connection_is_reset(
    connector: Connector,
    now: Timestamp,
    command: ClientCommandModel,
)
    ensures
        now.0 > connector.last_watcher_msg.0 + 120 || now.0 < connector.last_watcher_msg.0
            ==> connector.command_step(SinkState::Open, now, command) is Reconnect,
        connector.command_step(SinkState::Closed, now, command) is Reconnect,
        connector.command_step(SinkState::Missing, now, command) == ClientStepModel::Forward(
            command,
        ),
{
}

/// An acknowledgement that holds `judgement given`, in any case and whatever
/// stands around it, marks the identity at its address as judged, on the
/// network of the connection; without an address that is an error.
pub proof fn law_given_judgement_is_noted(
    network: ChainName,
    dn_verifier: DisplayNameVerifier,
    result: Seq<char>,
    before: Seq<char>,
    after: Seq<char>,
    address: Seq<char>,
)
    requires
        text::lowercase(result) == before + "judgement given"@ + after,
    ensures
        message_begun(network, dn_verifier, WatcherMessageModel::Ack(result, Some(address)))
            == WatcherStepModel::SetJudged(ContextModel { address, chain: network }),
        message_begun(network, dn_verifier, WatcherMessageModel::Ack(result, None))
            is MissingAddress,
{
    text::law_occurrence_stands_within("judgement given"@, text::lowercase(result));
}

/// Any other acknowledgement asks for nothing.
pub proof fn law_other_acknowledgements_ask_for_nothing(
    network: ChainName,
    dn_verifier: DisplayNameVerifier,
    result: Seq<char>,
    address: Option<Seq<char>>,
)
    requires
        forall|before: Seq<char>, after: Seq<char>|
            text::lowercase(result) != #[trigger] (before + "judgement given"@ + after),
    ensures
        message_begun(network, dn_verifier, WatcherMessageModel::Ack(result, address)) is Finished,
{
    text::law_occurrence_stands_within("judgement given"@, text::lowercase(result));
}

/// Requests are taken in their order. The state of the first one's identity,
/// on the network of the connection, is looked up, with its accounts as they
/// were sent but for the display name, which is decoded; the others stay
/// behind it. A single request is a list of one.
pub proof fn law_first_request_is_looked_up(
    network: ChainName,
    dn_verifier: DisplayNameVerifier,
    requests: Seq<RequestModel>,
    request: RequestModel,
    i: int,
)
    ensures
        message_begun(network, dn_verifier, WatcherMessageModel::NewJudgementRequest(request))
            == message_begun(
            network,
            dn_verifier,
            WatcherMessageModel::PendingJudgementsRequests(seq![request]),
        ),
        requests.len() == 0 ==> message_begun(
            network,
            dn_verifier,
            WatcherMessageModel::PendingJudgementsRequests(requests),
        ) is Finished,
        requests.len() > 0 ==> (message_begun(
            network,
            dn_verifier,
            WatcherMessageModel::PendingJudgementsRequests(requests),
        ) matches WatcherStepModel::FetchState(task) && {
            &&& task.context == (ContextModel { address: requests[0].address, chain: network })
            &&& task.pending == (PendingRequestsModel {
                network,
                dn_verifier,
                rest: requests.skip(1),
            })
            &&& task.accounts.len() == requests[0].accounts.len()
            &&& 0 <= i < requests[0].accounts.len() ==> {
                let sent = requests[0].accounts[i];
                &&& task.accounts[i].0 == sent.0
                &&& sent.0 is DisplayName ==> task.accounts[i].1 == hex_text::display_text(sent.1)
                &&& !(sent.0 is DisplayName) ==> task.accounts[i].1 == sent.1
            }
        }),
{
    if requests.len() > 0 {
        assert(requests.drop_first() =~= requests.skip(1));
        if 0 <= i < requests[0].accounts.len() {
            crate::identity::law_only_display_names_are_decoded(requests[0].accounts, i);
        }
    }
}

/// Where nothing is left to do for a request, the next one is taken as if it
/// were the first of a list.
pub proof fn law_next_request_is_taken(pending: PendingRequestsModel)
    ensures
        pending.next() == message_begun(
            pending.network,
            pending.dn_verifier,
            WatcherMessageModel::PendingJudgementsRequests(pending.rest),
        ),
{
}

/// Whether a field with the value is the account: of one kind and, where the
/// kind keeps a value, with one value.
pub open spec fn is_field_of(value: FieldValueModel, account: (AccountType, Seq<char>)) -> bool {
    match value {
        FieldValueModel::LegalName(v) => account == (AccountType::LegalName, v),
        FieldValueModel::DisplayName(v) => account == (AccountType::DisplayName, v),
        FieldValueModel::Email(v) => account == (AccountType::Email, v),
        FieldValueModel::Web(v) => account == (AccountType::Web, v),
        FieldValueModel::Twitter(v) => account == (AccountType::Twitter, v),
        FieldValueModel::Matrix(v) => account == (AccountType::Matrix, v),
        FieldValueModel::PGPFingerprint => account.0 is PGPFingerprint,
        FieldValueModel::Image => account.0 is Image,
        FieldValueModel::Additional => account.0 is Additional,
    }
}

/// Whether one of the fields is the account.
pub open spec fn has_field_of(state: StateModel, account: (AccountType, Seq<char>)) -> bool {
    exists|f: int|
        0 <= f < state.fields.len() && is_field_of((#[trigger] state.fields[f]).value, account)
}

/// Where a state was found, the request is known exactly when there are as
/// many fields as accounts and a field for each account.
proof fn lemma_unchanged_is_known(
    task: RequestTaskModel,
    found: Result<Option<StateModel>, DatabaseFailure>,
)
    ensures
        found matches Ok(Some(state)) ==> (task.is_known(Some(state)) <==> state.fields.len()
            == task.accounts.len() && forall|a: int|
            0 <= a < task.accounts.len() ==> has_field_of(state, #[trigger] task.accounts[a])),
        !task.is_known(None),
{
    if let Ok(Some(state)) = found {
        assert forall|a: int| 0 <= a < task.accounts.len() implies has_field_of(
            state,
            #[trigger] task.accounts[a],
        ) == crate::judgement::has_match(state.fields, task.accounts[a]) by {
            let account = task.accounts[a];
            if has_field_of(state, account) {
                let f = choose|f: int|
                    0 <= f < state.fields.len() && is_field_of(
                        (#[trigger] state.fields[f]).value,
                        account,
                    );
                assert(state.fields[f].value.matches(account.0, account.1));
            }
            if crate::judgement::has_match(state.fields, account) {
                let f = choose|f: int|
                    0 <= f < state.fields.len() && (#[trigger] state.fields[f]).value.matches(
                        account.0,
                        account.1,
                    );
                assert(is_field_of(state.fields[f].value, account));
            }
        }
    }
}

/// A request is passed over only where a state was found that has as many
/// fields as the request has accounts and one for each of them, and then
/// whatever else the state holds. Where an account was added, dropped or
/// changed, or no state was found, a new state is inserted: of the identity
/// of the request, open, and with a field for each account in its place. A
/// lookup that fails ends the handling.
pub proof fn law_only_unchanged_requests_are_passed_over(
    task: RequestTaskModel,
    found: Result<Option<StateModel>, DatabaseFailure>,
    step: WatcherStepModel,
    i: int,
)
    requires
        task.resumes_with(found, step),
    ensures
        ({
            let unchanged = found matches Ok(Some(state)) && state.fields.len()
                == task.accounts.len() && forall|a: int|
                0 <= a < task.accounts.len() ==> has_field_of(state, #[trigger] task.accounts[a]);
            &&& found is Err ==> step is Failed
            &&& unchanged ==> step == task.pending.next()
            &&& found is Ok && !unchanged ==> (step matches WatcherStepModel::AddRequest(insert)
                && {
                &&& insert.pending == task.pending
                &&& insert.state.context == task.context
                &&& !insert.state.is_fully_verified
                &&& !insert.state.judgement_submitted
                &&& insert.state.completion_timestamp is None
                &&& insert.state.issue_judgement_at is None
                &&& insert.state.fields.len() == task.accounts.len()
                &&& 0 <= i < task.accounts.len() ==> {
                    &&& insert.state.fields[i].value == FieldValueModel::of(
                        task.accounts[i].0,
                        task.accounts[i].1,
                    )
                    &&& insert.state.fields[i].failed_attempts == 0
                    &&& !insert.state.fields[i].challenge.verified()
                }
            })
        }),
{
    lemma_unchanged_is_known(task, found);
    if let WatcherStepModel::AddRequest(insert) = step {
        let values = crate::identity::accounts_fields(task.accounts);
        if insert.state.is_fresh(task.context, values) && 0 <= i < task.accounts.len() {
            crate::judgement::law_fresh_state_is_open(insert.state, task.context, values, i);
            crate::identity::law_accounts_become_their_fields(task.accounts, i);
        }
    }
}

/// Once a state is inserted, its display name is checked exactly where the
/// insertion changed anything, the check is on and a display name is claimed;
/// it is the first one claimed. Otherwise the next request is taken, and an
/// insertion that fails ends the handling.
pub proof fn law_inserted_name_is_checked(
    task: InsertTaskModel,
    modified: Result<bool, DatabaseFailure>,
    i: int,
)
    requires
        0 <= i <= task.state.fields.len(),
        forall|j: int| 0 <= j < i ==> !((#[trigger] task.state.fields[j]).value is DisplayName),
        i < task.state.fields.len() ==> task.state.fields[i].value is DisplayName,
    ensures
        modified is Err ==> task.resumed(modified) is Failed,
        modified == Ok::<bool, DatabaseFailure>(false) ==> task.resumed(modified)
            == task.pending.next(),
        modified is Ok && (!task.pending.dn_verifier.config.enabled || i
            == task.state.fields.len()) ==> task.resumed(modified) == task.pending.next(),
        modified == Ok::<bool, DatabaseFailure>(true) && task.pending.dn_verifier.config.enabled
            && i < task.state.fields.len() ==> (task.resumed(modified) matches
            WatcherStepModel::FetchDisplayNames(check) && check.state == task.state
            && check.pending == task.pending && task.state.fields[i].value
            == FieldValueModel::DisplayName(check.name)),
{
    crate::judgement::law_first_display_name_is_told(task.state.fields, i);
}

/// A checked name is noted as valid exactly where every name in use is either
/// different enough or the identity's own. Otherwise violations are noted for
/// the identity: at least one and at most five, each a name in use that is
/// too similar and another's. A lookup that fails ends the handling.
pub proof fn law_checked_name_is_noted(
    task: NameCheckTaskModel,
    current: Seq<NameEntryModel>,
    similar: Seq<bool>,
    failure: DatabaseFailure,
)
    requires
        similar.len() == current.len(),
        task.pending.dn_verifier.checked_name(task.state) is Some,
    ensures
        task.resumed(Err(failure), similar) is Failed,
        (forall|i: int|
            0 <= i < current.len() ==> !similar[i] || (#[trigger] current[i]).context
                == task.state.context) ==> task.resumed(Ok(current), similar)
            == WatcherStepModel::SetDisplayNameValid(
            ValidNameTaskModel { state: task.state, pending: task.pending },
        ),
        !(forall|i: int|
            0 <= i < current.len() ==> !similar[i] || (#[trigger] current[i]).context
                == task.state.context) ==> (task.resumed(Ok(current), similar) matches
            WatcherStepModel::InsertViolations(noted) && {
            &&& noted.context == task.state.context
            &&& noted.pending == task.pending
            &&& 0 < noted.violations.len() <= 5
            &&& forall|k: int|
                0 <= k < noted.violations.len() ==> current.contains(
                    #[trigger] noted.violations[k],
                ) && noted.violations[k].context != task.state.context
        }),
{
    let checks = task.pending.dn_verifier;
    crate::display_name::law_valid_names_are_like_no_other(checks, task.state, current, similar);
    let skip = Some(task.state.context);
    let found = crate::display_name::violations(current, similar, skip);
    assert forall|k: int| 0 <= k < found.len() implies current.contains(#[trigger] found[k])
        && found[k].context != task.state.context by {
        crate::display_name::law_violations_are_similar(current, similar, skip, k);
    }
}

/// Once what came of a check or a display name is noted, the next request or
/// name is taken; a call that fails ends the handling.
pub proof fn law_noted_work_goes_on(
    violations: ViolationsTaskModel,
    valid: ValidNameTaskModel,
    name: NameTaskModel,
    failure: DatabaseFailure,
)
    ensures
        violations.resumed(Ok(())) == violations.pending.next(),
        violations.resumed(Err(failure)) is Failed,
        valid.resumed(Ok(())) == valid.pending.next(),
        valid.resumed(Err(failure)) is Failed,
        name.resumed(Ok(())) == name.pending.next(),
        name.resumed(Err(failure)) is Failed,
{
}

/// Display names are taken in their order: the first one, decoded where it is
/// a hexadecimal name, is inserted for its address on the network of the
/// connection, and the others stay behind it.
pub proof fn law_first_name_is_inserted(
    network: ChainName,
    dn_verifier: DisplayNameVerifier,
    names: Seq<RawNameModel>,
)
    ensures
        names.len() == 0 ==> message_begun(
            network,
            dn_verifier,
            WatcherMessageModel::ActiveDisplayNames(names),
        ) is Finished,
        names.len() > 0 ==> (message_begun(
            network,
            dn_verifier,
            WatcherMessageModel::ActiveDisplayNames(names),
        ) matches WatcherStepModel::InsertDisplayName(task) && {
            &&& task.entry.context == (ContextModel { address: names[0].address, chain: network })
            &&& task.entry.display_name == hex_text::display_text(names[0].display_name)
            &&& task.pending == (PendingNamesModel { network, rest: names.skip(1) })
            &&& task.pending.next() == message_begun(
                network,
                dn_verifier,
                WatcherMessageModel::ActiveDisplayNames(names.skip(1)),
            )
        }),
{
    if names.len() > 0 {
        assert(names.drop_first() =~= names.skip(1));
    }
}

/// The watcher is asked often enough that one that answers is never taken for
/// silent: for display names each minute and for pending judgements every two
/// minutes, while it may be silent for two. Identities to judge are looked for
/// every ten seconds, as often as a lost connection is tried again, and each
/// attempt from the tenth on is reported.
pub proof fn law_watcher_is_asked_before_it_is_silent()
    ensures
        DISPLAY_NAMES_INTERVAL == 60,
        PENDING_JUDGEMENTS_INTERVAL == 120,
        DISPLAY_NAMES_INTERVAL <= PENDING_JUDGEMENTS_INTERVAL <= HEARTBEAT_INTERVAL * 2 == 120,
        JUDGEMENT_CANDIDATES_INTERVAL == RECONNECTION_TIMEOUT == RECONNECTION_ATTEMPTS == 10,
{
}

/// What the watcher tells is seen whole: requests and names one by one, each
/// in its place, with the address and the accounts or the name that they
/// hold.
pub proof fn law_watcher_messages_are_seen_whole(
    data: AckResponse,
    request: JudgementRequest,
    requests: Vec<JudgementRequest>,
    names: Vec<DisplayNameEntryRaw>,
    i: int,
)
    ensures
        WatcherMessage::Ack(data)@ matches WatcherMessageModel::Ack(result, address) && result
            == data.result@ && (address is Some <==> data.address is Some) && (address is Some
            ==> address->Some_0 == data.address->Some_0@),
        WatcherMessage::NewJudgementRequest(request)@ matches
            WatcherMessageModel::NewJudgementRequest(seen) && seen.address == request.address@
            && seen.accounts == request.accounts@,
        WatcherMessage::PendingJudgementsRequests(requests)@ matches
            WatcherMessageModel::PendingJudgementsRequests(seen) && seen.len() == requests@.len()
            && (0 <= i < seen.len() ==> seen[i] == requests@[i]@),
        WatcherMessage::ActiveDisplayNames(names)@ matches WatcherMessageModel::ActiveDisplayNames(
            seen,
        ) && seen.len() == names@.len() && (0 <= i < seen.len() ==> seen[i].address
            == names@[i].address@ && seen[i].display_name == names@[i].display_name@),
{
}

/// A judgement that is to be sent is seen whole, its entries one by one and
/// each in its place.
pub proof fn law_sent_judgement_is_seen_whole(
    message: ResponseMessage<JudgementResponse>,
    i: int,
)
    requires
        0 <= i < message.data.verified@.len(),
    ensures
        ClientStep::ProvideJudgement(message)@ matches ClientStepModel::ProvideJudgement {
            event,
            address,
            judgement,
            verified,
        } && {
            &&& event == message.event
            &&& address == message.data.address@
            &&& judgement == message.data.judgement
            &&& verified.len() == message.data.verified@.len()
            &&& verified[i].0 == message.data.verified@[i].account_ty
            &&& verified[i].1 == message.data.verified@[i].value@
        },
{
}

} // verus!
