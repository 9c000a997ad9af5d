//! The commands that admins send, and how they are read.
use crate::admin::{Response, ResponseModel};
use crate::identity::ChainAddress;
use crate::text;
use std::str::FromStr;
use vstd::prelude::*;

verus! {

/// The name of a field as admins write it.
#[derive(Debug, Clone, Copy, PartialEq, Eq, Structural)]
pub enum RawFieldName {
    LegalName,
    DisplayName,
    Email,
    Web,
    Twitter,
    Matrix,
    /// The full identity.
    All,
}

impl RawFieldName {
    /// The name of the field as it is shown.
    pub open spec fn shown(self) -> Seq<char> {
        match self {
            RawFieldName::LegalName => "legal_name"@,
            RawFieldName::DisplayName => "display_name"@,
            RawFieldName::Email => "email"@,
            RawFieldName::Web => "web"@,
            RawFieldName::Twitter => "twitter"@,
            RawFieldName::Matrix => "matrix"@,
            RawFieldName::All => "all"@,
        }
    }

    /// The name of the field as it is shown.
    pub fn as_str(&self) -> (name: &'static str)
        ensures
            name@ == self.shown(),
    {
        match self {
            RawFieldName::LegalName => "legal_name",
            RawFieldName::DisplayName => "display_name",
            RawFieldName::Email => "email",
            RawFieldName::Web => "web",
            RawFieldName::Twitter => "twitter",
            RawFieldName::Matrix => "matrix",
            RawFieldName::All => "all",
        }
    }
}

/// The text as field names are compared: without the white space around it,
/// without hyphens and underscores, in lower case.
pub open spec fn field_key(text: Seq<char>) -> Seq<char> {
    text::lowercase(text::without(text::without(text::trimmed(text), '-'), '_'))
}

/// The field that the text names; `None` where it names none.
pub open spec fn field_named(text: Seq<char>) -> Option<RawFieldName> {
    let key = field_key(text);
    if key == "legalname"@ {
        Some(RawFieldName::LegalName)
    } else if key == "displayname"@ {
        Some(RawFieldName::DisplayName)
    } else if key == "email"@ {
        Some(RawFieldName::Email)
    } else if key == "web"@ {
        Some(RawFieldName::Web)
    } else if key == "twitter"@ {
        Some(RawFieldName::Twitter)
    } else if key == "matrix"@ {
        Some(RawFieldName::Matrix)
    } else if key == "all"@ {
        Some(RawFieldName::All)
    } else {
        None
    }
}

/// The fields that the words name, or the key of the first word that names
/// none.
pub open spec fn fields_named(words: Seq<Seq<char>>) -> Result<Seq<RawFieldName>, Seq<char>>
    decreases words.len(),
{
    if words.len() == 0 {
        Ok(Seq::empty())
    } else {
        match fields_named(words.drop_last()) {
            Ok(fields) => match field_named(words.last()) {
                Some(field) => Ok(fields.push(field)),
                None => Err(field_key(words.last())),
            },
            Err(key) => Err(key),
        }
    }
}

/// Reads the name of a field. Returns the field, or the key of a text that
/// names none.
fn read_field(name: &str) -> (field: Result<RawFieldName, String>)
    ensures
        match field {
            Ok(f) => field_named(name@) == Some(f),
            Err(key) => field_named(name@) is None && key@ == field_key(name@),
        },
{
    let trimmed = text::trim(&text::to_chars(name));
    let bare = text::remove_char(&text::remove_char(&trimmed, '-'), '_');
    let key = text::from_chars(&bare).as_str().to_lowercase();
    let k = key.as_str();
    if text::same_text(k, "legalname") {
        Ok(RawFieldName::LegalName)
    } else if text::same_text(k, "displayname") {
        Ok(RawFieldName::DisplayName)
    } else if text::same_text(k, "email") {
        Ok(RawFieldName::Email)
    } else if text::same_text(k, "web") {
        Ok(RawFieldName::Web)
    } else if text::same_text(k, "twitter") {
        Ok(RawFieldName::Twitter)
    } else if text::same_text(k, "matrix") {
        Ok(RawFieldName::Matrix)
    } else if text::same_text(k, "all") {
        Ok(RawFieldName::All)
    } else {
        Err(key)
    }
}

impl FromStr for RawFieldName {
    type Err = Response;

    /// Reads the name of a field. White space around it, hyphens, underscores
    /// and the case of its letters do not matter.
    fn from_str(s: &str) -> (field: Result<RawFieldName, Response>)
        ensures
            match field {
                Ok(f) => field_named(s@) == Some(f),
                Err(response) => {
                    &&& field_named(s@) is None
                    &&& response@ == ResponseModel::InvalidSyntax(Some(field_key(s@)))
                },
            },
    {
        match read_field(s) {
            Ok(field) => Ok(field),
            Err(key) => Err(Response::InvalidSyntax(Some(key))),
        }
    }
}

/// What an admin asks for.
#[derive(Debug, PartialEq, Eq)]
pub enum Command {
    Status(ChainAddress),
    Verify(ChainAddress, Vec<RawFieldName>),
    Help,
}

/// What a [`Command`] holds.
#[verifier::ext_equal]
pub enum CommandModel {
    Status(Seq<char>),
    Verify(Seq<char>, Seq<RawFieldName>),
    Help,
}

impl View for Command {
    type V = CommandModel;

    open spec fn view(&self) -> CommandModel {
        match self {
            Command::Status(address) => CommandModel::Status(address@),
            Command::Verify(address, fields) => CommandModel::Verify(address@, fields@),
            Command::Help => CommandModel::Help,
        }
    }
}

impl Clone for Command {
    fn clone(&self) -> (copy: Self)
        ensures
            copy@ == self@,
    {
        match self {
            Command::Status(address) => Command::Status(address.clone()),
            Command::Verify(address, fields) => {
                let copies = fields.clone();
                assert(copies@ =~= fields@);
                Command::Verify(address.clone(), copies)
            },
            Command::Help => Command::Help,
        }
    }
}

/// Why a text is no command.
#[derive(Debug, PartialEq, Eq)]
pub enum CommandError {
    /// It begins as a status command, but does not name one address.
    Status,
    /// It begins as a verify command, but names no address or no field.
    Verify,
    /// It begins as a help command, but goes on.
    Help,
    /// It begins as no command.
    Unknown,
    /// A field is named that does not exist; the key of the name.
    Field(String),
}

/// What a [`CommandError`] holds.
pub enum CommandErrorModel {
    Status,
    Verify,
    Help,
    Unknown,
    Field(Seq<char>),
}

impl View for CommandError {
    type V = CommandErrorModel;

    open spec fn view(&self) -> CommandErrorModel {
        match self {
            CommandError::Status => CommandErrorModel::Status,
            CommandError::Verify => CommandErrorModel::Verify,
            CommandError::Help => CommandErrorModel::Help,
            CommandError::Unknown => CommandErrorModel::Unknown,
            CommandError::Field(key) => CommandErrorModel::Field(key@),
        }
    }
}

impl CommandErrorModel {
    /// The error in words.
    pub open spec fn message(self) -> Seq<char> {
        match self {
            CommandErrorModel::Status => "Invalid `status` command"@,
            CommandErrorModel::Verify => "Invalid `verify` command"@,
            CommandErrorModel::Help => "Invalid `help` command"@,
            CommandErrorModel::Unknown => "Unknown command"@,
            CommandErrorModel::Field(key) => "Invalid input '"@ + key + "'"@,
        }
    }
}

impl CommandError {
    /// The error in words.
    pub fn message(&self) -> (message: String)
        ensures
            message@ == self@.message(),
    {
        match self {
            CommandError::Status => "Invalid `status` command".to_owned(),
            CommandError::Verify => "Invalid `verify` command".to_owned(),
            CommandError::Help => "Invalid `help` command".to_owned(),
            CommandError::Unknown => "Unknown command".to_owned(),
            CommandError::Field(key) => {
                let mut message = text::concat("Invalid input '", key.as_str());
                text::push_text(&mut message, "'");
                message
            },
        }
    }
}

/// The words of a command: what spaces separate once the white space around
/// the text is taken away and pairs of spaces are made single ones.
pub open spec fn command_words(text: Seq<char>) -> Seq<Seq<char>> {
    text::split(text::pairs_collapsed(text::trimmed(text)), ' ')
}

/// The command that the text is, or why it is none. The kind is told by how
/// the text begins, and the first word has no part in the rest.
pub open spec fn command_read(text: Seq<char>) -> Result<CommandModel, CommandErrorModel> {
    let line = text::pairs_collapsed(text::trimmed(text));
    let words = command_words(text);
    if text::begins_with(line, "status"@) {
        if words.len() == 2 {
            Ok(CommandModel::Status(words[1]))
        } else {
            Err(CommandErrorModel::Status)
        }
    } else if text::begins_with(line, "verify"@) {
        if words.len() < 3 {
            Err(CommandErrorModel::Verify)
        } else {
            match fields_named(words.skip(2)) {
                Ok(fields) => Ok(CommandModel::Verify(words[1], fields)),
                Err(key) => Err(CommandErrorModel::Field(key)),
            }
        }
    } else if text::begins_with(line, "help"@) {
        if words.len() == 1 {
            Ok(CommandModel::Help)
        } else {
            Err(CommandErrorModel::Help)
        }
    } else {
        Err(CommandErrorModel::Unknown)
    }
}

impl Command {
    /// Reads a command. Returns the command, or why the text is none.
    pub fn read(s: &str) -> (command: Result<Command, CommandError>)
        ensures
            match command {
                Ok(c) => command_read(s@) == Ok::<CommandModel, CommandErrorModel>(c@),
                Err(e) => command_read(s@) == Err::<CommandModel, CommandErrorModel>(e@),
            },
    {
        let line = text::collapse_pairs(&text::trim(&text::to_chars(s)));
        let words = text::split_at(&line, ' ');
        let ghost all = words@.map_values(|p: Vec<char>| p@);
        assert(all == command_words(s@));
        assert(words@.len() == all.len());
        assert(forall|i: int| 0 <= i < all.len() ==> (#[trigger] all[i]) == words@[i]@);
        if text::starts_with(&line, "status") {
            if words.len() != 2 {
                return Err(CommandError::Status);
            }
            Ok(Command::Status(ChainAddress::from(text::from_chars(&words[1]))))
        } else if text::starts_with(&line, "verify") {
            if words.len() < 3 {
                return Err(CommandError::Verify);
            }
            let mut fields: Vec<RawFieldName> = Vec::new();
            let mut i: usize = 2;
            let ghost named = all.skip(2);
            while i < words.len()
                invariant
                    2 <= i <= words@.len(),
                    words@.len() == all.len(),
                    forall|j: int| 0 <= j < all.len() ==> (#[trigger] all[j]) == words@[j]@,
                    named == all.skip(2),
                    fields_named(named.take(i - 2)) == Ok::<Seq<RawFieldName>, Seq<char>>(
                        fields@,
                    ),
                    command_words(s@) == all,
                    line@ == text::pairs_collapsed(text::trimmed(s@)),
                    !text::begins_with(line@, "status"@),
                    text::begins_with(line@, "verify"@),
                decreases words@.len() - i,
            {
                assert(named.take(i - 1).drop_last() =~= named.take(i - 2));
                assert(named.take(i - 1).last() == words@[i as int]@);
                match read_field(text::from_chars(&words[i]).as_str()) {
                    Ok(field) => fields.push(field),
                    Err(key) => {
                        proof {
                            lemma_first_unnamed_decides(named, i - 1);
                        }
                        return Err(CommandError::Field(key));
                    },
                }
                i += 1;
            }
            assert(named.take(i - 2) =~= named);
            Ok(Command::Verify(ChainAddress::from(text::from_chars(&words[1])), fields))
        } else if text::starts_with(&line, "help") {
            if words.len() > 1 {
                return Err(CommandError::Help);
            }
            assert(words@.len() == 1) by {
                text::law_join_undoes_split(line@, ' ');
            }
            Ok(Command::Help)
        } else {
            Err(CommandError::Unknown)
        }
    }
}

impl FromStr for Command {
    type Err = Response;

    /// Reads a command. A text that is none is answered with an unknown
    /// command, or, where only a field is misnamed, with an invalid input.
    fn from_str(s: &str) -> (command: Result<Command, Response>)
        ensures
            match command {
                Ok(c) => command_read(s@) == Ok::<CommandModel, CommandErrorModel>(c@),
                Err(response) => command_read(s@) matches Err(error) && response@ == match error {
                    CommandErrorModel::Field(key) => ResponseModel::InvalidSyntax(Some(key)),
                    _ => ResponseModel::UnknownCommand,
                },
            },
    {
        match Command::read(s) {
            Ok(command) => Ok(command),
            Err(CommandError::Field(key)) => Err(Response::InvalidSyntax(Some(key))),
            Err(_) => Err(Response::UnknownCommand),
        }
    }
}

/// A word that names no field decides for every list that begins with the
/// words up to it.
proof fn lemma_first_unnamed_decides(words: Seq<Seq<char>>, n: int)
    requires
        0 <= n <= words.len(),
        fields_named(words.take(n)) is Err,
    ensures
        fields_named(words) == fields_named(words.take(n)),
    decreases words.len(),
{
    if n < words.len() {
        assert(words.drop_last().take(n) =~= words.take(n));
        lemma_first_unnamed_decides(words.drop_last(), n);
    } else {
        assert(words.take(n) =~= words);
    }
}

/// White space around a text has no part in the command that it is.
pub proof fn law_blank_around_command_is_ignored(
    before: Seq<char>,
    line: Seq<char>,
    after: Seq<char>,
)
    requires
        text::is_blank(before),
        text::is_blank(after),
    ensures
        command_read(before + line + after) == command_read(line),
{
    text::law_trim_drops_blank(before, line, after);
}

/// A line of words is the same command whether it is spaced once or twice
/// between the words.
pub proof fn law_double_spacing_is_ignored(words: Seq<Seq<char>>)
    requires
        words.len() > 0,
        text::all_words(words),
    ensures
        command_read(text::joined(words, seq![' ', ' '])) == command_read(
            text::joined(words, seq![' ']),
        ),
{
    text::law_double_spacing_collapses(words);
    text::law_line_of_words_is_split(words);
}

/// A line that begins with the word `head` and a space begins with `head`,
/// and with no other text that differs from it within its length.
proof fn lemma_line_begins(head: Seq<char>, rest: Seq<Seq<char>>)
    requires
        head.len() > 0,
    ensures
        text::begins_with(text::joined(seq![head] + rest, seq![' ']), head),
        forall|other: Seq<char>|
            other.len() <= head.len() && #[trigger] text::begins_with(
                text::joined(seq![head] + rest, seq![' ']),
                other,
            ) ==> other == head.take(other.len() as int),
    decreases rest.len(),
{
    let words = seq![head] + rest;
    let line = text::joined(words, seq![' ']);
    if rest.len() > 0 {
        lemma_line_begins(head, rest.drop_last());
        assert(words.drop_last() =~= seq![head] + rest.drop_last());
        let front = text::joined(words.drop_last(), seq![' ']);
        assert(line == front + seq![' '] + words.last());
        assert(line.take(head.len() as int) =~= front.take(head.len() as int));
    } else {
        assert(words =~= seq![head]);
        assert(line.take(head.len() as int) =~= head);
    }
    assert forall|other: Seq<char>|
        other.len() <= head.len() && #[trigger] text::begins_with(line, other) implies other
        == head.take(other.len() as int) by {
        assert(line.take(head.len() as int).take(other.len() as int) =~= line.take(
            other.len() as int,
        ));
    }
}

/// `status` followed by an address is the status command for the address,
/// whatever word the address is.
pub proof fn law_status_is_read(address: Seq<char>)
    requires
        text::is_word(address),
    ensures
        command_read("status "@ + address) == Ok::<CommandModel, CommandErrorModel>(
            CommandModel::Status(address),
        ),
{
    reveal_strlit("status ");
    reveal_strlit("status");
    let words = seq!["status"@] + seq![address];
    let line = text::joined(words, seq![' ']);
    assert(words.drop_last() =~= seq!["status"@]);
    assert(text::joined(words.drop_last(), seq![' ']) == "status"@);
    assert(line =~= "status "@ + address);
    lemma_literals_are_words();
    assert forall|i: int| 0 <= i < words.len() implies text::is_word(#[trigger] words[i]) by {}
    text::law_line_of_words_is_split(words);
    lemma_line_begins("status"@, seq![address]);
}

/// `verify` followed by an address and by names of fields is the verify
/// command for the address and those fields, in order, whatever word the
/// address is and however the names are written.
pub proof fn law_verify_is_read(
    address: Seq<char>,
    names: Seq<Seq<char>>,
    fields: Seq<RawFieldName>,
)
    requires
        text::is_word(address),
        names.len() > 0,
        text::all_words(names),
        fields.len() == names.len(),
        forall|i: int| 0 <= i < names.len() ==> field_named(#[trigger] names[i]) == Some(fields[i]),
    ensures
        command_read(text::joined(seq!["verify"@, address] + names, seq![' '])) == Ok::<
            CommandModel,
            CommandErrorModel,
        >(CommandModel::Verify(address, fields)),
{
    reveal_strlit("verify");
    reveal_strlit("status");
    let words = seq!["verify"@, address] + names;
    lemma_literals_are_words();
    assert forall|i: int| 0 <= i < words.len() implies text::is_word(#[trigger] words[i]) by {
        if i >= 2 {
            assert(words[i] == names[i - 2]);
        }
    }
    text::law_line_of_words_is_split(words);
    assert(words =~= seq!["verify"@] + (seq![address] + names));
    lemma_line_begins("verify"@, seq![address] + names);
    assert("verify"@.take(6) =~= "verify"@);
    assert("verify"@[0] != "status"@[0]);
    assert(words.skip(2) =~= names);
    lemma_fields_named(names, fields);
}

proof fn lemma_fields_named(names: Seq<Seq<char>>, fields: Seq<RawFieldName>)
    requires
        fields.len() == names.len(),
        forall|i: int| 0 <= i < names.len() ==> field_named(#[trigger] names[i]) == Some(fields[i]),
    ensures
        fields_named(names) == Ok::<Seq<RawFieldName>, Seq<char>>(fields),
    decreases names.len(),
{
    if names.len() > 0 {
        lemma_fields_named(names.drop_last(), fields.drop_last());
        assert(names.last() == names[names.len() - 1]);
        assert(fields.drop_last().push(fields.last()) =~= fields);
    } else {
        assert(fields =~= Seq::<RawFieldName>::empty());
    }
}

proof fn lemma_literals_are_words()
    ensures
        text::is_word("status"@),
        text::is_word("verify"@),
{
    reveal_strlit("status");
    reveal_strlit("verify");
}

/// Whether the text is made of small ASCII letters.
spec fn is_letters(key: Seq<char>) -> bool {
    key.len() > 0 && forall|i: int| 0 <= i < key.len() ==> 'a' <= #[trigger] key[i] <= 'z'
}

/// Small letters are their own key.
proof fn lemma_letters_are_key(key: Seq<char>)
    requires
        is_letters(key),
    ensures
        field_key(key) == key,
        text::lowercase(key) == key,
        text::without(key, '_') == key,
{
    text::lemma_trimmed_keeps(key);
    text::lemma_without_keeps(key, '-');
    text::lemma_without_keeps(key, '_');
    assert(text::ascii_lowercase(key) =~= key);
}

/// Small letters with an underscore among them have the letters as their key.
proof fn lemma_underscore_is_dropped(before: Seq<char>, after: Seq<char>)
    requires
        is_letters(before),
        is_letters(after),
    ensures
        field_key(before.push('_') + after) == before + after,
        text::without(before.push('_') + after, '_') == before + after,
{
    let name = before.push('_') + after;
    let letters = before + after;
    assert(text::trimmed(name) == name) by {
        assert(name.first() == before[0]);
        assert(name.last() == after[after.len() - 1]);
        text::lemma_trimmed_keeps(name);
    }
    assert(text::without(name, '-') == name) by {
        assert forall|i: int| 0 <= i < name.len() implies #[trigger] name[i] != '-' by {
            if i < before.len() {
                assert(name[i] == before[i]);
            } else if i > before.len() {
                assert(name[i] == after[i - before.len() - 1]);
            }
        }
        text::lemma_without_keeps(name, '-');
    }
    assert(text::without(name, '_') == letters) by {
        assert(!before.contains('_') && !after.contains('_'));
        text::lemma_without_drops(before, '_', after);
    }
    assert(text::lowercase(letters) == letters) by {
        assert forall|i: int| 0 <= i < letters.len() implies 'a' <= #[trigger] letters[i]
            <= 'z' by {
            if i < before.len() {
                assert(letters[i] == before[i]);
            } else {
                assert(letters[i] == after[i - before.len()]);
            }
        }
        lemma_letters_are_key(letters);
    }
}

/// The shown name of a field, with or without its underscore, names the
/// field, and is made of small letters without it.
proof fn lemma_shown_name(field: RawFieldName)
    ensures
        field_named(field.shown()) == Some(field),
        field_named(text::without(field.shown(), '_')) == Some(field),
        is_letters(text::without(field.shown(), '_')),
{
    reveal_strlit("legalname");
    reveal_strlit("displayname");
    reveal_strlit("email");
    reveal_strlit("web");
    reveal_strlit("twitter");
    reveal_strlit("matrix");
    reveal_strlit("all");
    match field {
        RawFieldName::LegalName => {
            reveal_strlit("legal_name");
            let before = "legal_name"@.take(5);
            let after = "legal_name"@.skip(6);
            assert("legal_name"@ =~= before.push('_') + after);
            assert(before + after =~= "legalname"@);
            lemma_underscore_is_dropped(before, after);
            lemma_letters_are_key("legalname"@);
            assert(text::without(field.shown(), '_') == "legalname"@);
        },
        RawFieldName::DisplayName => {
            reveal_strlit("display_name");
            let before = "display_name"@.take(7);
            let after = "display_name"@.skip(8);
            assert("display_name"@ =~= before.push('_') + after);
            assert(before + after =~= "displayname"@);
            lemma_underscore_is_dropped(before, after);
            lemma_letters_are_key("displayname"@);
            assert(text::without(field.shown(), '_') == "displayname"@);
        },
        RawFieldName::Email => {
            lemma_letters_are_key("email"@);
            assert(text::without(field.shown(), '_') == "email"@);
        },
        RawFieldName::Web => {
            lemma_letters_are_key("web"@);
            assert(text::without(field.shown(), '_') == "web"@);
        },
        RawFieldName::Twitter => {
            lemma_letters_are_key("twitter"@);
            assert(text::without(field.shown(), '_') == "twitter"@);
        },
        RawFieldName::Matrix => {
            lemma_letters_are_key("matrix"@);
            assert(text::without(field.shown(), '_') == "matrix"@);
            assert("matrix"@[0] != "twitter"@[0]);
        },
        RawFieldName::All => {
            lemma_letters_are_key("all"@);
            assert(text::without(field.shown(), '_') == "all"@);
            assert("all"@[0] != "web"@[0]);
        },
    }
}

/// A text that holds small letters once hyphens and underscores are taken out
/// and its capitals are made small has those letters as its key.
proof fn lemma_spelling_has_key(name: Seq<char>, key: Seq<char>)
    requires
        is_letters(key),
        text::ascii_lowercase(text::without(text::without(name, '-'), '_')) == key,
    ensures
        text::trimmed(name) == name,
        field_key(name) == key,
{
    let dashless = text::without(name, '-');
    let bare = text::without(dashless, '_');
    assert(bare.len() == key.len());
    assert forall|j: int| 0 <= j < bare.len() implies '\0' <= #[trigger] bare[j] <= '\u{7f}'
        && !text::is_white_space(bare[j]) by {
        assert(text::ascii_lowercase(bare)[j] == text::ascii_lower(bare[j]));
        assert('a' <= key[j] <= 'z');
    }
    assert forall|i: int| 0 <= i < name.len() implies !text::is_white_space(
        #[trigger] name[i],
    ) by {
        if name[i] != '-' && name[i] != '_' {
            text::lemma_without_contains(name, '-', i);
            let k = choose|k: int| 0 <= k < dashless.len() && dashless[k] == name[i];
            text::lemma_without_contains(dashless, '_', k);
            let j = choose|j: int| 0 <= j < bare.len() && bare[j] == name[i];
            assert(!text::is_white_space(bare[j]));
        }
    }
    assert(name.len() > 0) by {
        if name.len() == 0 {
            text::lemma_without_keeps(name, '-');
            text::lemma_without_keeps(dashless, '_');
        }
    }
    text::lemma_trimmed_keeps(name);
}

/// A field is read from its shown name however that is spelled: in any case,
/// with any hyphens and underscores, and with blank around it.
pub proof fn law_shown_name_is_read(
    field: RawFieldName,
    before: Seq<char>,
    name: Seq<char>,
    after: Seq<char>,
)
    requires
        text::is_blank(before),
        text::is_blank(after),
        text::ascii_lowercase(text::without(text::without(name, '-'), '_')) == text::without(
            field.shown(),
            '_',
        ),
    ensures
        field_named(before + name + after) == Some(field),
{
    let key = text::without(field.shown(), '_');
    lemma_shown_name(field);
    lemma_spelling_has_key(name, key);
    lemma_letters_are_key(key);
    text::law_trim_drops_blank(before, name, after);
    assert(field_key(before + name + after) == field_key(name));
}

/// A field is read from its name exactly as that is shown.
pub proof fn law_shown_name_is_read_back(field: RawFieldName)
    ensures
        field_named(field.shown()) == Some(field),
{
    lemma_shown_name(field);
}

/// A text names a field exactly when, without the white space around it,
/// without hyphens and underscores and in lower case, it is the shown name of
/// the field without its underscore. A text that names none has no such
/// spelling of any field.
pub proof fn law_text_names_the_field_it_spells(name: Seq<char>, field: RawFieldName)
    ensures
        field_named(name) == Some(field) <==> text::lowercase(
            text::without(text::without(text::trimmed(name), '-'), '_'),
        ) == text::without(field.shown(), '_'),
        field_key(name) == text::lowercase(
            text::without(text::without(text::trimmed(name), '-'), '_'),
        ),
{
    let key = text::without(field.shown(), '_');
    lemma_shown_name(field);
    lemma_letters_are_key(key);
    assert(field_key(key) == key);
    assert(field_named(key) == Some(field));
}

/// Words name fields one by one: where each names one, they name these in
/// order; where one is the first that does not, its key is all that is told.
pub proof fn law_words_name_fields_one_by_one(
    words: Seq<Seq<char>>,
    fields: Seq<RawFieldName>,
    first: int,
)
    requires
        0 <= first <= words.len(),
        fields.len() == words.len(),
        forall|i: int| 0 <= i < first ==> field_named(#[trigger] words[i]) == Some(fields[i]),
        first < words.len() ==> field_named(words[first]) is None,
    ensures
        first == words.len() ==> fields_named(words) == Ok::<Seq<RawFieldName>, Seq<char>>(fields),
        first < words.len() ==> fields_named(words) == Err::<Seq<RawFieldName>, Seq<char>>(
            text::lowercase(text::without(text::without(text::trimmed(words[first]), '-'), '_')),
        ),
{
    if first == words.len() {
        lemma_fields_named(words, fields);
    } else {
        let front = words.take(first);
        lemma_fields_named(front, fields.take(first));
        let upto = words.take(first + 1);
        assert(upto.drop_last() =~= front);
        assert(upto.last() == words[first]);
        lemma_first_unnamed_decides(words, first + 1);
        law_text_names_the_field_it_spells(words[first], RawFieldName::All);
    }
}

/// What a text is read as goes by its pieces: what single spaces separate
/// once the white space around the text is away and pairs of spaces are made
/// single ones. `status` takes one more piece, the address; `verify` takes an
/// address and at least one field; `help` takes nothing; and no text that
/// begins otherwise is a command.
pub proof fn law_command_is_read_by_its_pieces(
    text: Seq<char>,
    pieces: Seq<Seq<char>>,
    fields: Seq<RawFieldName>,
    first: int,
)
    requires
        pieces.len() > 0,
        forall|i: int| 0 <= i < pieces.len() ==> !(#[trigger] pieces[i]).contains(' '),
        text::joined(pieces, seq![' ']) == text::pairs_collapsed(text::trimmed(text)),
    ensures
        ({
            let line = text::joined(pieces, seq![' ']);
            let status = text::begins_with(line, "status"@);
            let verify = !status && text::begins_with(line, "verify"@);
            let help = !status && !verify && text::begins_with(line, "help"@);
            let read = command_read(text);
            &&& status && pieces.len() == 2 ==> read == Ok::<CommandModel, CommandErrorModel>(
                CommandModel::Status(pieces[1]),
            )
            &&& status && pieces.len() != 2 ==> read == Err::<CommandModel, CommandErrorModel>(
                CommandErrorModel::Status,
            )
            &&& verify && pieces.len() < 3 ==> read == Err::<CommandModel, CommandErrorModel>(
                CommandErrorModel::Verify,
            )
            &&& verify && pieces.len() >= 3 && fields.len() == pieces.len() - 2 && 0 <= first
                <= fields.len() && (forall|i: int|
                0 <= i < first ==> field_named(pieces[i + 2]) == Some(#[trigger] fields[i])) ==> {
                &&& first == fields.len() ==> read == Ok::<CommandModel, CommandErrorModel>(
                    CommandModel::Verify(pieces[1], fields),
                )
                &&& first < fields.len() && field_named(pieces[first + 2]) is None ==> read == Err::<
                    CommandModel,
                    CommandErrorModel,
                >(CommandErrorModel::Field(field_key(pieces[first + 2])))
            }
            &&& help && pieces.len() == 1 ==> read == Ok::<CommandModel, CommandErrorModel>(
                CommandModel::Help,
            )
            &&& help && pieces.len() != 1 ==> read == Err::<CommandModel, CommandErrorModel>(
                CommandErrorModel::Help,
            )
            &&& !status && !verify && !help ==> read == Err::<CommandModel, CommandErrorModel>(
                CommandErrorModel::Unknown,
            )
        }),
{
    text::law_split_undoes_join(pieces, ' ');
    assert(command_words(text) == pieces);
    if pieces.len() >= 3 && fields.len() == pieces.len() - 2 && 0 <= first <= fields.len() && (
    forall|i: int| 0 <= i < first ==> field_named(pieces[i + 2]) == Some(#[trigger] fields[i])) {
        let words = pieces.skip(2);
        assert forall|i: int| 0 <= i < first implies field_named(#[trigger] words[i]) == Some(
            fields[i],
        ) by {
            assert(words[i] == pieces[i + 2]);
            assert(fields[i] == fields[i]);
        }
        if first == fields.len() || field_named(words[first]) is None {
            law_words_name_fields_one_by_one(words, fields, first);
        }
        if first < fields.len() {
            law_text_names_the_field_it_spells(pieces[first + 2], RawFieldName::All);
        }
    }
}

/// A misnamed field is quoted by its key, whatever that is.
pub proof fn law_error_quotes_the_key(key: Seq<char>)
    ensures
        CommandErrorModel::Field(key).message() == "Invalid input '"@ + key + "'"@,
{
}

} // verus!
