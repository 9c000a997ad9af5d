//! Messages that users send to the registrar to prove that an account is
//! theirs.
use crate::time::Timestamp;
use vstd::prelude::*;
use vstd::std_specs::convert::FromSpecImpl;

verus! {

/// A message as an adapter receives it.
#[derive(Debug, PartialEq, Eq)]
pub struct ExternalMessage {
    pub origin: ExternalMessageType,
    pub id: MessageId,
    pub timestamp: Timestamp,
    pub values: Vec<MessagePart>,
}

/// What an [`ExternalMessage`] holds.
#[verifier::ext_equal]
pub struct MessageModel {
    pub origin: OriginModel,
    pub id: MessageId,
    pub timestamp: Timestamp,
    pub values: Seq<Seq<char>>,
}

impl View for ExternalMessage {
    type V = MessageModel;

    open spec fn view(&self) -> MessageModel {
        MessageModel {
            origin: self.origin@,
            id: self.id,
            timestamp: self.timestamp,
            values: self.values@.map_values(|p: MessagePart| p@),
        }
    }
}

impl Clone for ExternalMessage {
    fn clone(&self) -> (copy: Self)
        ensures
            copy@ == self@,
    {
        let copy = ExternalMessage {
            origin: self.origin.clone(),
            id: self.id,
            timestamp: self.timestamp,
            values: self.values.clone(),
        };
        assert(copy@.values =~= self@.values);
        copy
    }
}

/// The account that a message was sent from.
#[derive(Debug, PartialEq, Eq)]
pub enum ExternalMessageType {
    Email(String),
    Twitter(String),
    Matrix(String),
}

/// What an [`ExternalMessageType`] holds.
pub enum OriginModel {
    Email(Seq<char>),
    Twitter(Seq<char>),
    Matrix(Seq<char>),
}

impl View for ExternalMessageType {
    type V = OriginModel;

    open spec fn view(&self) -> OriginModel {
        match self {
            ExternalMessageType::Email(name) => OriginModel::Email(name@),
            ExternalMessageType::Twitter(name) => OriginModel::Twitter(name@),
            ExternalMessageType::Matrix(name) => OriginModel::Matrix(name@),
        }
    }
}

impl Clone for ExternalMessageType {
    fn clone(&self) -> (copy: Self)
        ensures
            copy@ == self@,
    {
        match self {
            ExternalMessageType::Email(name) => ExternalMessageType::Email(name.clone()),
            ExternalMessageType::Twitter(name) => ExternalMessageType::Twitter(name.clone()),
            ExternalMessageType::Matrix(name) => ExternalMessageType::Matrix(name.clone()),
        }
    }
}

/// The number that tells messages of one adapter apart.
#[derive(Debug, Clone, Copy, PartialEq, Eq, Structural, Hash)]
pub struct MessageId(pub u64);

impl From<u64> for MessageId {
    fn from(val: u64) -> (id: Self) {
        MessageId(val)
    }
}

impl FromSpecImpl<u64> for MessageId {
    open spec fn obeys_from_spec() -> bool {
        true
    }

    open spec fn from_spec(val: u64) -> MessageId {
        MessageId(val)
    }
}

impl From<u32> for MessageId {
    fn from(val: u32) -> (id: Self) {
        MessageId::from(val as u64)
    }
}

impl FromSpecImpl<u32> for MessageId {
    open spec fn obeys_from_spec() -> bool {
        true
    }

    open spec fn from_spec(val: u32) -> MessageId {
        MessageId(val as u64)
    }
}

/// One part of the text of a message.
#[derive(Debug, PartialEq, Eq)]
pub struct MessagePart(pub String);

impl View for MessagePart {
    type V = Seq<char>;

    open spec fn view(&self) -> Seq<char> {
        self.0@
    }
}

impl Clone for MessagePart {
    fn clone(&self) -> (copy: Self)
        ensures
            copy@ == self@,
    {
        MessagePart(self.0.clone())
    }
}

impl From<String> for MessagePart {
    fn from(val: String) -> (part: Self) {
        MessagePart(val)
    }
}

impl FromSpecImpl<String> for MessagePart {
    open spec fn obeys_from_spec() -> bool {
        true
    }

    open spec fn from_spec(val: String) -> MessagePart {
        MessagePart(val)
    }
}

} // verus!
