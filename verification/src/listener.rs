//! The rounds of a message adapter: what users sent is verified, then those
//! who still owe a second answer are sent the second challenge.
use crate::challenge::{ExpectedMessage, ExpectedModel};
use crate::database::DatabaseFailure;
use crate::identity::{ContextModel, FieldValueModel, IdentityContext, IdentityFieldValue};
use crate::message::{ExternalMessage, MessageModel};
use crate::notification::{NotificationMessage, NotificationModel};
use crate::text;
use std::collections::VecDeque;
use vstd::prelude::*;

verus! {

/// An adapter did not come to its messages.
#[derive(Debug, Clone, Copy, PartialEq, Eq, Structural)]
pub struct AdapterFailure;

/// A second challenge that is to be sent.
#[derive(Debug)]
pub struct SecondChallenge {
    pub context: IdentityContext,
    pub field: IdentityFieldValue,
    pub to: String,
}

/// What a [`SecondChallenge`] holds.
#[verifier::ext_equal]
pub struct SecondChallengeModel {
    pub context: ContextModel,
    pub field: FieldValueModel,
    pub to: Seq<char>,
}

impl View for SecondChallenge {
    type V = SecondChallengeModel;

    open spec fn view(&self) -> SecondChallengeModel {
        SecondChallengeModel { context: self.context@, field: self.field@, to: self.to@ }
    }
}

/// The second challenge that is due after the event: only where an identity
/// waits for one and the field is an email address, which it is sent to.
pub open spec fn challenge_due(event: NotificationModel) -> Option<SecondChallengeModel> {
    match event {
        NotificationModel::AwaitingSecondChallenge { context, field } => match field {
            FieldValueModel::Email(to) => Some(SecondChallengeModel { context, field, to }),
            _ => None,
        },
        _ => None,
    }
}

/// The second challenges that are due after the events, in order.
pub open spec fn challenges_due(events: Seq<NotificationModel>) -> Seq<SecondChallengeModel>
    decreases events.len(),
{
    if events.len() == 0 {
        Seq::empty()
    } else {
        let before = challenges_due(events.drop_last());
        match challenge_due(events.last()) {
            Some(due) => before.push(due),
            None => before,
        }
    }
}

/// What each message of a list holds.
pub open spec fn message_models(messages: Seq<ExternalMessage>) -> Seq<MessageModel> {
    messages.map_values(|message: ExternalMessage| message@)
}

/// What each event of a list holds.
pub open spec fn event_models(events: Seq<NotificationMessage>) -> Seq<NotificationModel> {
    events.map_values(|event: NotificationMessage| event@)
}

/// What each second challenge of a list holds.
pub open spec fn challenge_models(challenges: Seq<SecondChallenge>) -> Seq<SecondChallengeModel> {
    challenges.map_values(|challenge: SecondChallenge| challenge@)
}

/// What is to be done next in the rounds of an adapter.
#[derive(Debug)]
pub enum ListenerStep {
    /// Wait for the next round, fetch the messages of the adapter and go on
    /// with [`Listener::messages_fetched`].
    AwaitRound(Listener),
    /// Verify the message.
    VerifyMessage(MessageTask),
    /// Fetch the events since the last round and go on with
    /// [`Listener::events_fetched`].
    FetchEvents(Listener),
    /// Look the code of the second challenge up.
    FetchSecondChallenge(ChallengeTask),
    /// Send the code.
    SendChallenge(SendTask),
}

/// What a [`ListenerStep`] holds.
#[verifier::ext_equal]
pub enum ListenerStepModel {
    AwaitRound(Listener),
    VerifyMessage(MessageTaskModel),
    FetchEvents(Listener),
    FetchSecondChallenge(ChallengeTaskModel),
    SendChallenge(SendTaskModel),
}

impl View for ListenerStep {
    type V = ListenerStepModel;

    open spec fn view(&self) -> ListenerStepModel {
        match self {
            ListenerStep::AwaitRound(listener) => ListenerStepModel::AwaitRound(*listener),
            ListenerStep::VerifyMessage(task) => ListenerStepModel::VerifyMessage(task@),
            ListenerStep::FetchEvents(listener) => ListenerStepModel::FetchEvents(*listener),
            ListenerStep::FetchSecondChallenge(task) => ListenerStepModel::FetchSecondChallenge(
                task@,
            ),
            ListenerStep::SendChallenge(task) => ListenerStepModel::SendChallenge(task@),
        }
    }
}

/// The part of an adapter that decides what is done.
#[derive(Debug, Clone, Copy, PartialEq, Eq, Structural)]
pub struct Listener {
    /// Whether the adapter sends second challenges.
    pub sends_challenges: bool,
}

impl Listener {
    /// What is to be done about the messages, in order.
    pub open spec fn at_messages(self, messages: Seq<MessageModel>) -> ListenerStepModel {
        if messages.len() == 0 {
            ListenerStepModel::FetchEvents(self)
        } else {
            ListenerStepModel::VerifyMessage(
                MessageTaskModel {
                    listener: self,
                    message: messages[0],
                    rest: messages.drop_first(),
                },
            )
        }
    }

    /// What is to be done about the second challenges, in order.
    pub open spec fn at_challenges(self, due: Seq<SecondChallengeModel>) -> ListenerStepModel {
        if due.len() == 0 {
            ListenerStepModel::AwaitRound(self)
        } else {
            ListenerStepModel::FetchSecondChallenge(
                ChallengeTaskModel { listener: self, challenge: due[0], rest: due.drop_first() },
            )
        }
    }

    /// What is to be done once the events were fetched: second challenges are
    /// sent by email only.
    pub open spec fn events_step(
        self,
        events: Result<Seq<NotificationModel>, DatabaseFailure>,
    ) -> ListenerStepModel {
        match events {
            Ok(list) if self.sends_challenges => self.at_challenges(challenges_due(list)),
            _ => ListenerStepModel::AwaitRound(self),
        }
    }

    /// The listener of the adapter with the name.
    pub fn new(adapter: &str) -> (listener: Self)
        ensures
            listener.sends_challenges == (adapter@ == "email"@),
    {
        Listener { sends_challenges: text::same_text(adapter, "email") }
    }

    /// Says what is to be done about the messages.
    fn next_message(self, mut rest: VecDeque<ExternalMessage>) -> (step: ListenerStep)
        ensures
            step@ == self.at_messages(message_models(rest@)),
    {
        let ghost all = rest@;
        match rest.pop_front() {
            Some(message) => {
                assert(message_models(all)[0] == message@);
                assert(message_models(rest@) =~= message_models(all).drop_first());
                ListenerStep::VerifyMessage(MessageTask { listener: self, message, rest })
            },
            None => ListenerStep::FetchEvents(self),
        }
    }

    /// Says what is to be done about the second challenges.
    fn next_challenge(self, mut rest: VecDeque<SecondChallenge>) -> (step: ListenerStep)
        ensures
            step@ == self.at_challenges(challenge_models(rest@)),
    {
        let ghost all = rest@;
        match rest.pop_front() {
            Some(challenge) => {
                assert(challenge_models(all)[0] == challenge@);
                assert(challenge_models(rest@) =~= challenge_models(all).drop_first());
                ListenerStep::FetchSecondChallenge(
                    ChallengeTask { listener: self, challenge, rest },
                )
            },
            None => ListenerStep::AwaitRound(self),
        }
    }

    /// Goes on once the messages of the adapter were fetched. Where that did
    /// not succeed there are none to verify.
    pub fn messages_fetched(self, messages: Result<Vec<ExternalMessage>, AdapterFailure>) -> (step:
        ListenerStep)
        ensures
            step@ == match messages {
                Ok(list) => self.at_messages(message_models(list@)),
                Err(_) => ListenerStepModel::FetchEvents(self),
            },
    {
        match messages {
            Ok(list) => {
                let ghost all = list@;
                let mut rest: VecDeque<ExternalMessage> = VecDeque::new();
                for message in it: list
                    invariant
                        it.seq() == all,
                        rest@ == all.take(it.index() as int),
                {
                    rest.push_back(message);
                }
                self.next_message(rest)
            },
            Err(_) => ListenerStep::FetchEvents(self),
        }
    }

    /// Goes on once the events since the last round were fetched. Where that
    /// did not succeed the round is over.
    pub fn events_fetched(self, events: Result<Vec<NotificationMessage>, DatabaseFailure>) -> (step:
        ListenerStep)
        ensures
            step@ == self.events_step(
                match events {
                    Ok(list) => Ok(event_models(list@)),
                    Err(failure) => Err(failure),
                },
            ),
            self.sends_challenges && events is Ok ==> (step is FetchSecondChallenge
                <==> exists|e: int|
                0 <= e < events->Ok_0@.len() && awaits_email(#[trigger] events->Ok_0@[e]@)),
            !self.sends_challenges || events is Err ==> step is AwaitRound,
    {
        proof {
            let list = events->Ok_0@;
            lemma_some_is_due(event_models(list));
            assert forall|e: int| 0 <= e < list.len() implies event_models(list)[e]
                == #[trigger] list[e]@ by {}
        }
        match events {
            Ok(list) => {
                if !self.sends_challenges {
                    return ListenerStep::AwaitRound(self);
                }
                let mut due: VecDeque<SecondChallenge> = VecDeque::new();
                let mut i: usize = 0;
                let ghost all = event_models(list@);
                assert(challenge_models(due@) =~= challenges_due(all.take(0)));
                while i < list.len()
                    invariant
                        i <= list@.len(),
                        all == event_models(list@),
                        challenge_models(due@) == challenges_due(all.take(i as int)),
                    decreases list@.len() - i,
                {
                    assert(all.take(i + 1).drop_last() =~= all.take(i as int));
                    assert(all.take(i + 1).last() == list@[i as int]@);
                    let ghost before = due@;
                    if let NotificationMessage::AwaitingSecondChallenge { context, field } = &list[i]
                    {
                        if let IdentityFieldValue::Email(to) = field {
                            due.push_back(
                                SecondChallenge {
                                    context: context.clone(),
                                    field: field.clone(),
                                    to: to.clone(),
                                },
                            );
                            assert(challenge_models(due@) =~= challenge_models(before).push(
                                due@.last()@,
                            ));
                        }
                    }
                    i += 1;
                }
                assert(all.take(i as int) =~= all);
                self.next_challenge(due)
            },
            Err(_) => ListenerStep::AwaitRound(self),
        }
    }
}

/// A message that is to be verified.
#[derive(Debug)]
pub struct MessageTask {
    pub listener: Listener,
    pub message: ExternalMessage,
    pub rest: VecDeque<ExternalMessage>,
}

/// What a [`MessageTask`] holds.
#[verifier::ext_equal]
pub struct MessageTaskModel {
    pub listener: Listener,
    pub message: MessageModel,
    pub rest: Seq<MessageModel>,
}

impl View for MessageTask {
    type V = MessageTaskModel;

    open spec fn view(&self) -> MessageTaskModel {
        MessageTaskModel {
            listener: self.listener,
            message: self.message@,
            rest: message_models(self.rest@),
        }
    }
}

impl MessageTask {
    /// Goes on once the message was looked at, whatever came of that.
    pub fn resume(self) -> (step: ListenerStep)
        ensures
            step@ == self@.listener.at_messages(self@.rest),
    {
        self.listener.next_message(self.rest)
    }
}

/// A second challenge whose code is to be looked up.
#[derive(Debug)]
pub struct ChallengeTask {
    pub listener: Listener,
    pub challenge: SecondChallenge,
    pub rest: VecDeque<SecondChallenge>,
}

/// What a [`ChallengeTask`] holds.
#[verifier::ext_equal]
pub struct ChallengeTaskModel {
    pub listener: Listener,
    pub challenge: SecondChallengeModel,
    pub rest: Seq<SecondChallengeModel>,
}

impl View for ChallengeTask {
    type V = ChallengeTaskModel;

    open spec fn view(&self) -> ChallengeTaskModel {
        ChallengeTaskModel {
            listener: self.listener,
            challenge: self.challenge@,
            rest: challenge_models(self.rest@),
        }
    }
}

impl ChallengeTaskModel {
    /// What is to be done once the code was looked up: it is sent to the
    /// address; where it could not be had, the next challenge is due.
    pub open spec fn resumed(self, found: Result<ExpectedModel, DatabaseFailure>) -> ListenerStepModel {
        match found {
            Ok(code) => ListenerStepModel::SendChallenge(
                SendTaskModel {
                    listener: self.listener,
                    to: self.challenge.to,
                    code,
                    rest: self.rest,
                },
            ),
            Err(_) => self.listener.at_challenges(self.rest),
        }
    }
}

impl ChallengeTask {
    /// Goes on once the code was looked up.
    pub fn resume(self, found: Result<ExpectedMessage, DatabaseFailure>) -> (step: ListenerStep)
        ensures
            step@ == self@.resumed(
                match found {
                    Ok(code) => Ok(code@),
                    Err(failure) => Err(failure),
                },
            ),
    {
        match found {
            Ok(code) => ListenerStep::SendChallenge(
                SendTask { listener: self.listener, to: self.challenge.to, code, rest: self.rest },
            ),
            Err(_) => self.listener.next_challenge(self.rest),
        }
    }
}

/// A code that is to be sent.
#[derive(Debug)]
pub struct SendTask {
    pub listener: Listener,
    pub to: String,
    pub code: ExpectedMessage,
    pub rest: VecDeque<SecondChallenge>,
}

/// What a [`SendTask`] holds.
#[verifier::ext_equal]
pub struct SendTaskModel {
    pub listener: Listener,
    pub to: Seq<char>,
    pub code: ExpectedModel,
    pub rest: Seq<SecondChallengeModel>,
}

impl View for SendTask {
    type V = SendTaskModel;

    open spec fn view(&self) -> SendTaskModel {
        SendTaskModel {
            listener: self.listener,
            to: self.to@,
            code: self.code@,
            rest: challenge_models(self.rest@),
        }
    }
}

impl SendTask {
    /// Goes on once the code was handed to the adapter, whatever came of
    /// that.
    pub fn resume(self) -> (step: ListenerStep)
        ensures
            step@ == self@.listener.at_challenges(self@.rest),
    {
        self.listener.next_challenge(self.rest)
    }
}

/// What came of a step.
pub enum RoundOutcome {
    Messages(Result<Seq<MessageModel>, AdapterFailure>),
    Looked,
    Events(Result<Seq<NotificationModel>, DatabaseFailure>),
    Code(Result<ExpectedModel, DatabaseFailure>),
    Sent,
}

/// What an adapter goes on to from the step when the given came of it. A step
/// that something else comes of stays as it is.
pub open spec fn round_step(step: ListenerStepModel, outcome: RoundOutcome) -> ListenerStepModel {
    match (step, outcome) {
        (ListenerStepModel::AwaitRound(listener), RoundOutcome::Messages(Ok(messages))) =>
            listener.at_messages(messages),
        (ListenerStepModel::AwaitRound(listener), RoundOutcome::Messages(Err(_))) =>
            ListenerStepModel::FetchEvents(listener),
        (ListenerStepModel::VerifyMessage(task), RoundOutcome::Looked) =>
            task.listener.at_messages(task.rest),
        (ListenerStepModel::FetchEvents(listener), RoundOutcome::Events(events)) =>
            listener.events_step(events),
        (ListenerStepModel::FetchSecondChallenge(task), RoundOutcome::Code(found)) => task.resumed(
            found,
        ),
        (ListenerStepModel::SendChallenge(task), RoundOutcome::Sent) =>
            task.listener.at_challenges(task.rest),
        _ => step,
    }
}

/// The step that is reached from the given one after the outcomes.
pub open spec fn round_steps(step: ListenerStepModel, outcomes: Seq<RoundOutcome>) -> ListenerStepModel
    decreases outcomes.len(),
{
    if outcomes.len() == 0 {
        step
    } else {
        round_step(round_steps(step, outcomes.drop_last()), outcomes.last())
    }
}

/// The messages of a round are verified one after the other, each of them
/// once, in their order; then the events are fetched.
pub proof fn law_messages_are_verified_in_order(
    listener: Listener,
    messages: Seq<MessageModel>,
    k: nat,
)
    requires
        k <= messages.len(),
    ensures
        round_steps(listener.at_messages(messages), Seq::new(k, |i: int| RoundOutcome::Looked))
            == listener.at_messages(messages.skip(k as int)),
    decreases k,
{
    let looked = Seq::new(k, |i: int| RoundOutcome::Looked);
    if k == 0 {
        assert(messages.skip(0) =~= messages);
    } else {
        let fewer = (k - 1) as nat;
        law_messages_are_verified_in_order(listener, messages, fewer);
        assert(looked.drop_last() =~= Seq::new(fewer, |i: int| RoundOutcome::Looked));
        assert(messages.skip(fewer as int).drop_first() =~= messages.skip(k as int));
    }
}

/// Whether no second challenge is looked up or sent in the step.
pub open spec fn sends_nothing(step: ListenerStepModel) -> bool {
    match step {
        ListenerStepModel::AwaitRound(listener) => !listener.sends_challenges,
        ListenerStepModel::VerifyMessage(task) => !task.listener.sends_challenges,
        ListenerStepModel::FetchEvents(listener) => !listener.sends_challenges,
        _ => false,
    }
}

/// An adapter other than that for email never sends a second challenge.
pub proof fn law_only_email_sends_challenges(listener: Listener, outcomes: Seq<RoundOutcome>)
    requires
        !listener.sends_challenges,
    ensures
        sends_nothing(round_steps(ListenerStepModel::AwaitRound(listener), outcomes)),
    decreases outcomes.len(),
{
    if outcomes.len() > 0 {
        law_only_email_sends_challenges(listener, outcomes.drop_last());
    }
}

/// A second challenge is sent only to the email address of a field that waits
/// for one, and is looked up for that field.
pub proof fn law_challenge_goes_to_awaited_address(events: Seq<NotificationModel>, k: int)
    requires
        0 <= k < challenges_due(events).len(),
    ensures
        challenges_due(events)[k].field == FieldValueModel::Email(challenges_due(events)[k].to),
        exists|e: int|
            0 <= e < events.len() && challenge_due(#[trigger] events[e]) == Some(
                challenges_due(events)[k],
            ),
    decreases events.len(),
{
    let front = events.drop_last();
    if k < challenges_due(front).len() {
        law_challenge_goes_to_awaited_address(front, k);
        let e = choose|e: int|
            0 <= e < front.len() && challenge_due(#[trigger] front[e]) == Some(
                challenges_due(front)[k],
            );
        assert(challenge_due(events[e]) == Some(challenges_due(events)[k]));
    } else {
        assert(challenge_due(events[events.len() - 1]) == Some(challenges_due(events)[k]));
    }
}

/// The outcomes of sending the codes: each is found, then handed to the
/// adapter.
pub open spec fn codes_sent(codes: Seq<ExpectedModel>) -> Seq<RoundOutcome>
    decreases codes.len(),
{
    if codes.len() == 0 {
        Seq::empty()
    } else {
        codes_sent(codes.drop_last()).push(RoundOutcome::Code(Ok(codes.last()))).push(
            RoundOutcome::Sent,
        )
    }
}

/// The second challenges that are due are sent one after the other, each of
/// them once, in the order of the events; then the next round is awaited.
pub proof fn law_challenges_are_sent_in_order(
    listener: Listener,
    due: Seq<SecondChallengeModel>,
    codes: Seq<ExpectedModel>,
)
    requires
        codes.len() <= due.len(),
    ensures
        round_steps(listener.at_challenges(due), codes_sent(codes)) == listener.at_challenges(
            due.skip(codes.len() as int),
        ),
        codes.len() > 0 ==> round_steps(
            listener.at_challenges(due),
            codes_sent(codes).drop_last(),
        ) == ListenerStepModel::SendChallenge(
            SendTaskModel {
                listener,
                to: due[codes.len() - 1].to,
                code: codes.last(),
                rest: due.skip(codes.len() as int),
            },
        ),
    decreases codes.len(),
{
    if codes.len() == 0 {
        assert(due.skip(0) =~= due);
    } else {
        let n = codes.len() as int;
        law_challenges_are_sent_in_order(listener, due, codes.drop_last());
        let before = codes_sent(codes.drop_last());
        let found = before.push(RoundOutcome::Code(Ok(codes.last())));
        assert(codes_sent(codes).drop_last() =~= found);
        assert(found.drop_last() =~= before);
        assert(due.skip(n - 1)[0] == due[n - 1]);
        assert(due.skip(n - 1).drop_first() =~= due.skip(n));
    }
}

/// A code that cannot be had does not keep the later ones from being sent.
pub proof fn law_missing_code_is_passed_over(
    listener: Listener,
    due: Seq<SecondChallengeModel>,
    failure: DatabaseFailure,
)
    requires
        due.len() > 0,
    ensures
        round_step(listener.at_challenges(due), RoundOutcome::Code(Err(failure)))
            == listener.at_challenges(due.drop_first()),
{
}

/// Whether the event says that an identity waits for the second challenge of
/// an email address.
pub open spec fn awaits_email(event: NotificationModel) -> bool {
    event matches NotificationModel::AwaitingSecondChallenge { field, .. } && field is Email
}

/// Every identity, on whatever chain, that waits for the second challenge of
/// an email address is due one, for that field and that address.
pub proof fn law_every_awaited_challenge_is_due(
    events: Seq<NotificationModel>,
    e: int,
    context: ContextModel,
    to: Seq<char>,
)
    requires
        0 <= e < events.len(),
        events[e] == (NotificationModel::AwaitingSecondChallenge {
            context,
            field: FieldValueModel::Email(to),
        }),
    ensures
        challenges_due(events).contains(
            SecondChallengeModel { context, field: FieldValueModel::Email(to), to },
        ),
    decreases events.len(),
{
    let due = SecondChallengeModel { context, field: FieldValueModel::Email(to), to };
    let all = challenges_due(events);
    if e < events.len() - 1 {
        let front = events.drop_last();
        law_every_awaited_challenge_is_due(front, e, context, to);
        let k = choose|k: int|
            0 <= k < challenges_due(front).len() && challenges_due(front)[k] == due;
        assert(all[k] == due);
    } else {
        assert(all.last() == due);
    }
}

/// As many second challenges are due as there are identities that wait for
/// one of an email address.
pub proof fn law_as_many_challenges_are_due_as_awaited(events: Seq<NotificationModel>)
    ensures
        challenges_due(events).len() == events.filter(
            |event: NotificationModel| awaits_email(event),
        ).len(),
    decreases events.len(),
{
    reveal(Seq::filter);
    if events.len() > 0 {
        law_as_many_challenges_are_due_as_awaited(events.drop_last());
    }
}

/// The second challenges that are due after more events are those due after
/// each, in the order of the events. An event that says anything else than
/// that an email address waits has none.
pub proof fn law_challenges_are_due_event_by_event(
    one: Seq<NotificationModel>,
    other: Seq<NotificationModel>,
    event: NotificationModel,
    context: ContextModel,
    to: Seq<char>,
)
    ensures
        challenges_due(one + other) == challenges_due(one) + challenges_due(other),
        !awaits_email(event) ==> challenges_due(seq![event])
            == Seq::<SecondChallengeModel>::empty(),
        challenges_due(
            seq![NotificationModel::AwaitingSecondChallenge {
                context,
                field: FieldValueModel::Email(to),
            }],
        ) == seq![SecondChallengeModel { context, field: FieldValueModel::Email(to), to }],
    decreases other.len(),
{
    let waiting = NotificationModel::AwaitingSecondChallenge {
        context,
        field: FieldValueModel::Email(to),
    };
    assert(seq![event].drop_last() =~= Seq::<NotificationModel>::empty());
    assert(seq![waiting].drop_last() =~= Seq::<NotificationModel>::empty());
    assert(challenges_due(Seq::empty()) =~= Seq::<SecondChallengeModel>::empty());
    assert(challenges_due(seq![waiting]) =~= seq![
        SecondChallengeModel { context, field: FieldValueModel::Email(to), to },
    ]);
    if other.len() == 0 {
        assert(one + other =~= one);
        assert(challenges_due(one) + challenges_due(other) =~= challenges_due(one));
    } else {
        law_challenges_are_due_event_by_event(one, other.drop_last(), event, context, to);
        let whole = one + other;
        assert(whole.drop_last() =~= one + other.drop_last());
        assert(whole.last() == other.last());
        assert(challenges_due(whole) =~= challenges_due(one) + challenges_due(other));
    }
}

/// The adapter for email looks up the first challenge that is due and keeps
/// the others behind it; where none is due, where the events could not be
/// had, and for any other adapter, the round is over.
pub proof fn law_due_challenges_are_looked_up(
    listener: Listener,
    events: Seq<NotificationModel>,
    failure: DatabaseFailure,
)
    ensures
        listener.sends_challenges && challenges_due(events).len() > 0 ==> listener.events_step(
            Ok(events),
        ) == ListenerStepModel::FetchSecondChallenge(
            ChallengeTaskModel {
                listener,
                challenge: challenges_due(events)[0],
                rest: challenges_due(events).skip(1),
            },
        ),
        !listener.sends_challenges || challenges_due(events).len() == 0 ==> listener.events_step(
            Ok(events),
        ) == ListenerStepModel::AwaitRound(listener),
        listener.events_step(Err(failure)) == ListenerStepModel::AwaitRound(listener),
{
    let due = challenges_due(events);
    if due.len() > 0 {
        assert(due.drop_first() =~= due.skip(1));
    }
}

/// The first identity among the events that waits for the second challenge of
/// its email address is the next that one is looked up for, on whatever chain
/// it is; those behind it stay due.
pub proof fn law_waiting_identity_is_next(
    listener: Listener,
    before: Seq<NotificationModel>,
    context: ContextModel,
    to: Seq<char>,
    after: Seq<NotificationModel>,
)
    requires
        listener.sends_challenges,
        forall|e: int| 0 <= e < before.len() ==> !awaits_email(#[trigger] before[e]),
    ensures
        listener.events_step(
            Ok(
                before.push(
                    NotificationModel::AwaitingSecondChallenge {
                        context,
                        field: FieldValueModel::Email(to),
                    },
                ) + after,
            ),
        ) matches ListenerStepModel::FetchSecondChallenge(task) && {
            &&& task.challenge.context == context
            &&& task.challenge.field == FieldValueModel::Email(to)
            &&& task.challenge.to == to
            &&& task.rest == challenges_due(after)
        },
{
    let waiting = NotificationModel::AwaitingSecondChallenge {
        context,
        field: FieldValueModel::Email(to),
    };
    lemma_nothing_is_due(before);
    law_challenges_are_due_event_by_event(before.push(waiting), after, waiting, context, to);
    let due = challenges_due(before.push(waiting) + after);
    assert(before.push(waiting).drop_last() =~= before);
    assert(challenges_due(before.push(waiting)) =~= seq![
        SecondChallengeModel { context, field: FieldValueModel::Email(to), to },
    ]);
    assert(due.drop_first() =~= challenges_due(after));
}

proof fn lemma_some_is_due(events: Seq<NotificationModel>)
    ensures
        challenges_due(events).len() > 0 <==> exists|e: int|
            0 <= e < events.len() && awaits_email(#[trigger] events[e]),
{
    if exists|e: int| 0 <= e < events.len() && awaits_email(#[trigger] events[e]) {
        let e = choose|e: int| 0 <= e < events.len() && awaits_email(#[trigger] events[e]);
        let event = events[e];
        law_every_awaited_challenge_is_due(
            events,
            e,
            event->AwaitingSecondChallenge_context,
            event->AwaitingSecondChallenge_field->Email_0,
        );
    } else {
        lemma_nothing_is_due(events);
    }
}

proof fn lemma_nothing_is_due(events: Seq<NotificationModel>)
    requires
        forall|e: int| 0 <= e < events.len() ==> !awaits_email(#[trigger] events[e]),
    ensures
        challenges_due(events) == Seq::<SecondChallengeModel>::empty(),
    decreases events.len(),
{
    if events.len() > 0 {
        let front = events.drop_last();
        assert forall|e: int| 0 <= e < front.len() implies !awaits_email(#[trigger] front[e]) by {
            assert(front[e] == events[e]);
        }
        lemma_nothing_is_due(front);
        assert(!awaits_email(events[events.len() - 1]));
    }
}

/// After so many messages of a round were looked at, the next one is
/// verified; once none is left, the events are fetched.
pub proof fn law_next_message_is_verified(
    listener: Listener,
    messages: Seq<MessageModel>,
    k: nat,
)
    requires
        k <= messages.len(),
    ensures
        ({
            let reached = round_steps(
                listener.at_messages(messages),
                Seq::new(k, |i: int| RoundOutcome::Looked),
            );
            &&& k < messages.len() ==> (reached matches ListenerStepModel::VerifyMessage(task)
                && task.message == messages[k as int] && task.listener == listener && task.rest
                == messages.skip(k as int + 1))
            &&& k == messages.len() ==> reached == ListenerStepModel::FetchEvents(listener)
        }),
{
    law_messages_are_verified_in_order(listener, messages, k);
    if k < messages.len() {
        assert(messages.skip(k as int).drop_first() =~= messages.skip(k as int + 1));
    }
}

/// A code that is found is sent to the address of its challenge, and the
/// later challenges are kept.
pub proof fn law_found_code_is_sent(
    listener: Listener,
    challenge: SecondChallengeModel,
    rest: Seq<SecondChallengeModel>,
    code: ExpectedModel,
)
    ensures
        (ChallengeTaskModel { listener, challenge, rest }).resumed(Ok(code)) matches
            ListenerStepModel::SendChallenge(task) && {
            &&& task.to == challenge.to
            &&& task.code == code
            &&& task.rest == rest
            &&& task.listener == listener
        },
{
}

/// Messages and events are seen one by one, each in its place.
pub proof fn law_messages_and_events_are_seen_in_place(
    messages: Seq<ExternalMessage>,
    events: Seq<NotificationMessage>,
    i: int,
)
    ensures
        message_models(messages).len() == messages.len(),
        event_models(events).len() == events.len(),
        0 <= i < messages.len() ==> message_models(messages)[i] == messages[i]@,
        0 <= i < events.len() ==> event_models(events)[i] == events[i]@,
{
}

} // verus!
