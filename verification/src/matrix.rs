//! The Matrix bot: what it does about the messages in its rooms.
use crate::command::{Command, CommandErrorModel, CommandModel};
use crate::message::{
    ExternalMessage, ExternalMessageType, MessageId, MessageModel, MessagePart, OriginModel,
};
use crate::text;
use crate::time::Timestamp;
use vstd::prelude::*;
use vstd::std_specs::cmp::PartialEqSpecImpl;

verus! {

/// The name of a Matrix user, such as `@admin:matrix.org`.
#[derive(Debug)]
pub struct Nickname(pub String);

impl View for Nickname {
    type V = Seq<char>;

    open spec fn view(&self) -> Seq<char> {
        self.0@
    }
}

impl Clone for Nickname {
    fn clone(&self) -> (copy: Self)
        ensures
            copy@ == self@,
    {
        Nickname(self.0.clone())
    }
}

impl PartialEq for Nickname {
    fn eq(&self, other: &Self) -> (same: bool) {
        self.0 == other.0
    }
}

impl PartialEqSpecImpl for Nickname {
    open spec fn obeys_eq_spec() -> bool {
        true
    }

    open spec fn eq_spec(&self, other: &Self) -> bool {
        self@ == other@
    }
}

impl Eq for Nickname {

}

/// What each name of a list holds.
pub open spec fn nickname_models(names: Seq<Nickname>) -> Seq<Seq<char>> {
    names.map_values(|name: Nickname| name@)
}

/// The account of the bot, and those who may give it commands.
#[derive(Debug, PartialEq)]
pub struct BotConfig<'a> {
    pub homeserver: &'a str,
    pub username: &'a str,
    pub password: &'a str,
    pub admins: Vec<Nickname>,
}

/// What a [`BotConfig`] holds.
#[verifier::ext_equal]
pub struct BotConfigModel {
    pub homeserver: Seq<char>,
    pub username: Seq<char>,
    pub password: Seq<char>,
    pub admins: Seq<Seq<char>>,
}

impl<'a> View for BotConfig<'a> {
    type V = BotConfigModel;

    open spec fn view(&self) -> BotConfigModel {
        BotConfigModel {
            homeserver: self.homeserver@,
            username: self.username@,
            password: self.password@,
            admins: nickname_models(self.admins@),
        }
    }
}

impl<'a> Clone for BotConfig<'a> {
    fn clone(&self) -> (copy: Self)
        ensures
            copy@ == self@,
    {
        let admins = self.admins.clone();
        assert(nickname_models(admins@) =~= nickname_models(self.admins@));
        BotConfig {
            homeserver: self.homeserver,
            username: self.username,
            password: self.password,
            admins,
        }
    }
}

/// What the bot does about a message in one of its rooms.
#[derive(Debug)]
pub enum RoomStep {
    /// Nothing.
    Ignore,
    /// Carry the command out and send the answer to the room.
    Execute(Command),
    /// Verify the message.
    Verify(ExternalMessage),
}

/// What a [`RoomStep`] holds.
#[verifier::ext_equal]
pub enum RoomStepModel {
    Ignore,
    Execute(CommandModel),
    Verify(MessageModel),
}

impl View for RoomStep {
    type V = RoomStepModel;

    open spec fn view(&self) -> RoomStepModel {
        match self {
            RoomStep::Ignore => RoomStepModel::Ignore,
            RoomStep::Execute(command) => RoomStepModel::Execute(command@),
            RoomStep::Verify(message) => RoomStepModel::Verify(message@),
        }
    }
}

/// The message that a Matrix user sent at the given time. Its number is not
/// relevant, as messages are not fetched but come in one by one.
pub open spec fn matrix_message(sender: Seq<char>, body: Seq<char>, now: Timestamp) -> MessageModel {
    MessageModel {
        origin: OriginModel::Matrix(sender),
        id: MessageId(0),
        timestamp: now,
        values: seq![body],
    }
}

/// What the bot does about a message of the sender at the given time. There
/// is no body where the message is not a text. Commands are taken from admins
/// only; any other text may be the answer to a challenge.
pub open spec fn room_step(
    admins: Seq<Seq<char>>,
    sender: Seq<char>,
    body: Option<Seq<char>>,
    now: Timestamp,
) -> RoomStepModel {
    match body {
        None => RoomStepModel::Ignore,
        Some(words) => match crate::command::command_read(words) {
            Ok(command) if admins.contains(sender) => RoomStepModel::Execute(command),
            _ => RoomStepModel::Verify(matrix_message(sender, words, now)),
        },
    }
}

/// What an optional body holds.
pub open spec fn body_model(body: Option<String>) -> Option<Seq<char>> {
    match body {
        Some(words) => Some(words@),
        None => None,
    }
}

/// Whether the user is one of the admins.
pub fn is_admin(admins: &Vec<Nickname>, user: &str) -> (yes: bool)
    ensures
        yes == nickname_models(admins@).contains(user@),
{
    let mut i: usize = 0;
    while i < admins.len()
        invariant
            i <= admins@.len(),
            forall|j: int| 0 <= j < i ==> nickname_models(admins@)[j] != user@,
        decreases admins@.len() - i,
    {
        if text::same_text(admins[i].0.as_str(), user) {
            assert(nickname_models(admins@)[i as int] == user@);
            return true;
        }
        i += 1;
    }
    false
}

/// Says what the bot does about a message of the sender at the given time.
/// There is no body where the message is not a text.
pub fn on_room_message_at(
    admins: &Vec<Nickname>,
    sender: String,
    body: Option<String>,
    now: Timestamp,
) -> (step: RoomStep)
    ensures
        step@ == room_step(nickname_models(admins@), sender@, body_model(body), now),
        body is None <==> step is Ignore,
        body matches Some(words) ==> (step is Execute <==> (exists|a: int|
            0 <= a < admins@.len() && (#[trigger] admins@[a])@ == sender@)
            && crate::command::command_read(words@) is Ok),
        step matches RoomStep::Execute(command) ==> body is Some && crate::command::command_read(
            body->Some_0@,
        ) == Ok::<CommandModel, CommandErrorModel>(command@),
{
    proof {
        let names = nickname_models(admins@);
        assert forall|a: int| 0 <= a < admins@.len() implies names[a] == (
        #[trigger] admins@[a])@ by {}
        if names.contains(sender@) {
            let a = choose|a: int| 0 <= a < names.len() && names[a] == sender@;
            assert(admins@[a]@ == sender@);
        }
        if exists|a: int| 0 <= a < admins@.len() && (#[trigger] admins@[a])@ == sender@ {
            let a = choose|a: int| 0 <= a < admins@.len() && (#[trigger] admins@[a])@ == sender@;
            assert(names[a] == sender@);
        }
    }
    let body = match body {
        Some(body) => body,
        None => {
            return RoomStep::Ignore;
        },
    };
    if is_admin(admins, sender.as_str()) {
        if let Ok(command) = Command::read(body.as_str()) {
            return RoomStep::Execute(command);
        }
    }
    let mut values: Vec<MessagePart> = Vec::new();
    values.push(MessagePart::from(body));
    let message = ExternalMessage {
        origin: ExternalMessageType::Matrix(sender),
        id: MessageId::from(0u32),
        timestamp: now,
        values,
    };
    assert(message@.values =~= seq![body@]);
    RoomStep::Verify(message)
}

/// Says what the bot does about a message of the sender that comes in now.
/// The time rests on the clock of the host.
pub fn on_room_message(admins: &Vec<Nickname>, sender: String, body: Option<String>) -> (step:
    RoomStep)
    ensures
        exists|now: Timestamp| #[trigger]
            room_step(nickname_models(admins@), sender@, body_model(body), now) == step@,
{
    on_room_message_at(admins, sender, body, Timestamp::now())
}

/// Whoever is no admin gives no command, whatever is written: each text is
/// taken for the answer to a challenge, sent by that user.
pub proof fn law_only_admins_give_commands(
    admins: Seq<Seq<char>>,
    sender: Seq<char>,
    body: Seq<char>,
    now: Timestamp,
)
    requires
        !admins.contains(sender),
    ensures
        room_step(admins, sender, Some(body), now) == RoomStepModel::Verify(
            matrix_message(sender, body, now),
        ),
{
}

/// A text that is no command is taken for the answer to a challenge, from
/// admins as from anyone else.
pub proof fn law_other_texts_are_verified(
    admins: Seq<Seq<char>>,
    sender: Seq<char>,
    body: Seq<char>,
    now: Timestamp,
)
    requires
        crate::command::command_read(body) is Err,
    ensures
        room_step(admins, sender, Some(body), now) == RoomStepModel::Verify(
            matrix_message(sender, body, now),
        ),
{
}

/// A message that the bot verifies is the answer to a Matrix challenge
/// exactly when the text holds the code, and counts for the fields of the
/// sender alone.
pub proof fn law_answer_counts_for_its_sender(
    sender: Seq<char>,
    body: Seq<char>,
    now: Timestamp,
    code: crate::challenge::ExpectedModel,
    field: crate::identity::FieldValueModel,
)
    ensures
        code.answered_by(matrix_message(sender, body, now)) <==> text::occurs(code.value, body),
        field.sent(matrix_message(sender, body, now).origin) <==> field
            == crate::identity::FieldValueModel::Matrix(sender),
{
    let message = matrix_message(sender, body, now);
    assert(message.values[0] == body);
}

/// Each command of an admin is carried out, of whatever kind it is: exactly
/// that which the text reads as, at any time.
pub proof fn law_commands_of_admins_are_executed(
    admins: Seq<Seq<char>>,
    a: int,
    body: Seq<char>,
    now: Timestamp,
    command: CommandModel,
)
    requires
        0 <= a < admins.len(),
        crate::command::command_read(body) == Ok::<CommandModel, CommandErrorModel>(command),
    ensures
        room_step(admins, admins[a], Some(body), now) == RoomStepModel::Execute(command),
{
    assert(admins.contains(admins[a]));
}

/// A text that is verified is handed on as it is: as the one part of a
/// message of its sender at the time. A message without text is ignored.
pub proof fn law_verified_text_is_handed_on(
    admins: Seq<Seq<char>>,
    sender: Seq<char>,
    body: Seq<char>,
    now: Timestamp,
)
    ensures
        room_step(admins, sender, None, now) is Ignore,
        !(room_step(admins, sender, Some(body), now) is Execute) ==> (room_step(
            admins,
            sender,
            Some(body),
            now,
        ) matches RoomStepModel::Verify(message) && {
            &&& message.origin == OriginModel::Matrix(sender)
            &&& message.id == MessageId(0)
            &&& message.timestamp == now
            &&& message.values.len() == 1
            &&& message.values[0] == body
        }),
{
}

/// Admins are seen one by one, each by the name in its place.
pub proof fn law_admins_are_seen_in_place(names: Seq<Nickname>, i: int)
    requires
        0 <= i < names.len(),
    ensures
        nickname_models(names).len() == names.len(),
        nickname_models(names)[i] == names[i].0@,
{
}

} // verus!
