//! What happens to identities, as it is told to those who listen.
use crate::command::RawFieldName;
use crate::identity::{ContextModel, FieldValueModel, IdentityContext, IdentityFieldValue};
use crate::time::Timestamp;
use vstd::prelude::*;
use vstd::std_specs::convert::FromSpecImpl;

verus! {

/// Something that happened to an identity.
#[derive(Debug, PartialEq, Eq)]
pub enum NotificationMessage {
    IdentityInserted { context: IdentityContext },
    IdentityUpdated { context: IdentityContext },
    FieldVerified { context: IdentityContext, field: IdentityFieldValue },
    FieldVerificationFailed { context: IdentityContext, field: IdentityFieldValue },
    SecondFieldVerified { context: IdentityContext, field: IdentityFieldValue },
    SecondFieldVerificationFailed { context: IdentityContext, field: IdentityFieldValue },
    AwaitingSecondChallenge { context: IdentityContext, field: IdentityFieldValue },
    IdentityFullyVerified { context: IdentityContext },
    JudgementProvided { context: IdentityContext },
    ManuallyVerified { context: IdentityContext, field: RawFieldName },
    FullManualVerification { context: IdentityContext },
}

/// What a [`NotificationMessage`] holds.
pub enum NotificationModel {
    IdentityInserted { context: ContextModel },
    IdentityUpdated { context: ContextModel },
    FieldVerified { context: ContextModel, field: FieldValueModel },
    FieldVerificationFailed { context: ContextModel, field: FieldValueModel },
    SecondFieldVerified { context: ContextModel, field: FieldValueModel },
    SecondFieldVerificationFailed { context: ContextModel, field: FieldValueModel },
    AwaitingSecondChallenge { context: ContextModel, field: FieldValueModel },
    IdentityFullyVerified { context: ContextModel },
    JudgementProvided { context: ContextModel },
    ManuallyVerified { context: ContextModel, field: RawFieldName },
    FullManualVerification { context: ContextModel },
}

impl NotificationModel {
    /// The identity that the message is about.
    pub open spec fn context(self) -> ContextModel {
        match self {
            NotificationModel::IdentityInserted { context } => context,
            NotificationModel::IdentityUpdated { context } => context,
            NotificationModel::FieldVerified { context, .. } => context,
            NotificationModel::FieldVerificationFailed { context, .. } => context,
            NotificationModel::SecondFieldVerified { context, .. } => context,
            NotificationModel::SecondFieldVerificationFailed { context, .. } => context,
            NotificationModel::AwaitingSecondChallenge { context, .. } => context,
            NotificationModel::IdentityFullyVerified { context } => context,
            NotificationModel::JudgementProvided { context } => context,
            NotificationModel::ManuallyVerified { context, .. } => context,
            NotificationModel::FullManualVerification { context } => context,
        }
    }
}

impl View for NotificationMessage {
    type V = NotificationModel;

    open spec fn view(&self) -> NotificationModel {
        match self {
            NotificationMessage::IdentityInserted { context } =>
                NotificationModel::IdentityInserted { context: context@ },
            NotificationMessage::IdentityUpdated { context } =>
                NotificationModel::IdentityUpdated { context: context@ },
            NotificationMessage::FieldVerified { context, field } =>
                NotificationModel::FieldVerified { context: context@, field: field@ },
            NotificationMessage::FieldVerificationFailed { context, field } =>
                NotificationModel::FieldVerificationFailed { context: context@, field: field@ },
            NotificationMessage::SecondFieldVerified { context, field } =>
                NotificationModel::SecondFieldVerified { context: context@, field: field@ },
            NotificationMessage::SecondFieldVerificationFailed { context, field } =>
                NotificationModel::SecondFieldVerificationFailed {
                context: context@,
                field: field@,
            },
            NotificationMessage::AwaitingSecondChallenge { context, field } =>
                NotificationModel::AwaitingSecondChallenge { context: context@, field: field@ },
            NotificationMessage::IdentityFullyVerified { context } =>
                NotificationModel::IdentityFullyVerified { context: context@ },
            NotificationMessage::JudgementProvided { context } =>
                NotificationModel::JudgementProvided { context: context@ },
            NotificationMessage::ManuallyVerified { context, field } =>
                NotificationModel::ManuallyVerified { context: context@, field: *field },
            NotificationMessage::FullManualVerification { context } =>
                NotificationModel::FullManualVerification { context: context@ },
        }
    }
}

impl Clone for NotificationMessage {
    fn clone(&self) -> (copy: Self)
        ensures
            copy@ == self@,
    {
        match self {
            NotificationMessage::IdentityInserted { context } =>
                NotificationMessage::IdentityInserted { context: context.clone() },
            NotificationMessage::IdentityUpdated { context } =>
                NotificationMessage::IdentityUpdated { context: context.clone() },
            NotificationMessage::FieldVerified { context, field } =>
                NotificationMessage::FieldVerified {
                context: context.clone(),
                field: field.clone(),
            },
            NotificationMessage::FieldVerificationFailed { context, field } =>
                NotificationMessage::FieldVerificationFailed {
                context: context.clone(),
                field: field.clone(),
            },
            NotificationMessage::SecondFieldVerified { context, field } =>
                NotificationMessage::SecondFieldVerified {
                context: context.clone(),
                field: field.clone(),
            },
            NotificationMessage::SecondFieldVerificationFailed { context, field } =>
                NotificationMessage::SecondFieldVerificationFailed {
                context: context.clone(),
                field: field.clone(),
            },
            NotificationMessage::AwaitingSecondChallenge { context, field } =>
                NotificationMessage::AwaitingSecondChallenge {
                context: context.clone(),
                field: field.clone(),
            },
            NotificationMessage::IdentityFullyVerified { context } =>
                NotificationMessage::IdentityFullyVerified { context: context.clone() },
            NotificationMessage::JudgementProvided { context } =>
                NotificationMessage::JudgementProvided { context: context.clone() },
            NotificationMessage::ManuallyVerified { context, field } =>
                NotificationMessage::ManuallyVerified { context: context.clone(), field: *field },
            NotificationMessage::FullManualVerification { context } =>
                NotificationMessage::FullManualVerification { context: context.clone() },
        }
    }
}

impl NotificationMessage {
    /// The identity that the message is about.
    pub fn context(&self) -> (context: &IdentityContext)
        ensures
            context@ == self@.context(),
    {
        match self {
            NotificationMessage::IdentityInserted { context } => context,
            NotificationMessage::IdentityUpdated { context } => context,
            NotificationMessage::FieldVerified { context, field: _ } => context,
            NotificationMessage::FieldVerificationFailed { context, field: _ } => context,
            NotificationMessage::SecondFieldVerified { context, field: _ } => context,
            NotificationMessage::SecondFieldVerificationFailed { context, field: _ } => context,
            NotificationMessage::AwaitingSecondChallenge { context, field: _ } => context,
            NotificationMessage::IdentityFullyVerified { context } => context,
            NotificationMessage::JudgementProvided { context } => context,
            NotificationMessage::ManuallyVerified { context, field: _ } => context,
            NotificationMessage::FullManualVerification { context } => context,
        }
    }
}

/// A message and when it came about.
#[derive(Debug, PartialEq, Eq)]
pub struct Event {
    pub timestamp: Timestamp,
    pub message: NotificationMessage,
}

/// What an [`Event`] holds.
pub struct EventModel {
    pub timestamp: Timestamp,
    pub message: NotificationModel,
}

impl View for Event {
    type V = EventModel;

    open spec fn view(&self) -> EventModel {
        EventModel { timestamp: self.timestamp, message: self.message@ }
    }
}

impl Clone for Event {
    fn clone(&self) -> (copy: Self)
        ensures
            copy@ == self@,
    {
        Event { timestamp: self.timestamp, message: self.message.clone() }
    }
}

impl Event {
    /// The event of the message at the given time.
    pub fn at(message: NotificationMessage, timestamp: Timestamp) -> (event: Self)
        ensures
            event.message == message,
            event.timestamp == timestamp,
    {
        Event { timestamp, message }
    }

    /// The event of the message at the current time, which rests on the clock
    /// of the host.
    pub fn new(message: NotificationMessage) -> (event: Self)
        ensures
            event.message == message,
    {
        Self::at(message, Timestamp::now())
    }
}

impl From<NotificationMessage> for Event {
    fn from(val: NotificationMessage) -> (event: Self)
        ensures
            event.message == val,
    {
        Event::new(val)
    }
}

impl FromSpecImpl<NotificationMessage> for Event {
    open spec fn obeys_from_spec() -> bool {
        false
    }

    open spec fn from_spec(val: NotificationMessage) -> Event {
        arbitrary()
    }
}

/// An identity that was judged, and when.
#[derive(Debug, PartialEq, Eq)]
pub struct IdentityJudged {
    pub context: IdentityContext,
    pub timestamp: Timestamp,
}

impl Clone for IdentityJudged {
    fn clone(&self) -> (copy: Self)
        ensures
            copy.context@ == self.context@,
            copy.timestamp == self.timestamp,
    {
        IdentityJudged { context: self.context.clone(), timestamp: self.timestamp }
    }
}

/// Each message is about the identity that it names.
pub proof fn law_message_is_about_its_identity(
    context: ContextModel,
    field: FieldValueModel,
    name: RawFieldName,
)
    ensures
        (NotificationModel::IdentityInserted { context }).context() == context,
        (NotificationModel::IdentityUpdated { context }).context() == context,
        (NotificationModel::FieldVerified { context, field }).context() == context,
        (NotificationModel::FieldVerificationFailed { context, field }).context() == context,
        (NotificationModel::SecondFieldVerified { context, field }).context() == context,
        (NotificationModel::SecondFieldVerificationFailed { context, field }).context() == context,
        (NotificationModel::AwaitingSecondChallenge { context, field }).context() == context,
        (NotificationModel::IdentityFullyVerified { context }).context() == context,
        (NotificationModel::JudgementProvided { context }).context() == context,
        (NotificationModel::ManuallyVerified { context, field: name }).context() == context,
        (NotificationModel::FullManualVerification { context }).context() == context,
{
}

} // verus!
