//! What the registrar answers to admins.
use crate::command::{Command, CommandModel, RawFieldName};
use crate::database::DatabaseFailure;
use crate::identity::{ChainAddress, ChainName, ContextModel, IdentityContext};
use crate::judgement::{BlankedStateModel, JudgementState, JudgementStateBlanked};
use crate::text;
use vstd::prelude::*;

verus! {

/// An answer to an admin.
#[derive(Debug, PartialEq, Eq)]
pub enum Response {
    Status(JudgementStateBlanked),
    Verified(ChainAddress, Vec<RawFieldName>),
    UnknownCommand,
    IdentityNotFound,
    InvalidSyntax(Option<String>),
    FullyVerified(ChainAddress),
    InternalError,
    Help,
}

/// What a [`Response`] holds.
#[verifier::ext_equal]
pub enum ResponseModel {
    Status(BlankedStateModel),
    Verified(Seq<char>, Seq<RawFieldName>),
    UnknownCommand,
    IdentityNotFound,
    InvalidSyntax(Option<Seq<char>>),
    FullyVerified(Seq<char>),
    InternalError,
    Help,
}

impl View for Response {
    type V = ResponseModel;

    open spec fn view(&self) -> ResponseModel {
        match self {
            Response::Status(state) => ResponseModel::Status(state@),
            Response::Verified(address, fields) => ResponseModel::Verified(address@, fields@),
            Response::UnknownCommand => ResponseModel::UnknownCommand,
            Response::IdentityNotFound => ResponseModel::IdentityNotFound,
            Response::InvalidSyntax(Some(input)) => ResponseModel::InvalidSyntax(Some(input@)),
            Response::InvalidSyntax(None) => ResponseModel::InvalidSyntax(None),
            Response::FullyVerified(address) => ResponseModel::FullyVerified(address@),
            Response::InternalError => ResponseModel::InternalError,
            Response::Help => ResponseModel::Help,
        }
    }
}

impl Clone for Response {
    fn clone(&self) -> (copy: Self)
        ensures
            copy@ == self@,
    {
        match self {
            Response::Status(state) => Response::Status(state.clone()),
            Response::Verified(address, fields) => {
                let copies = fields.clone();
                assert(copies@ =~= fields@);
                Response::Verified(address.clone(), copies)
            },
            Response::UnknownCommand => Response::UnknownCommand,
            Response::IdentityNotFound => Response::IdentityNotFound,
            Response::InvalidSyntax(input) => Response::InvalidSyntax(
                match input {
                    Some(input) => Some(input.clone()),
                    None => None,
                },
            ),
            Response::FullyVerified(address) => Response::FullyVerified(address.clone()),
            Response::InternalError => Response::InternalError,
            Response::Help => Response::Help,
        }
    }
}

/// The names of the fields as they are shown.
pub open spec fn names_shown(fields: Seq<RawFieldName>) -> Seq<Seq<char>> {
    fields.map_values(|field: RawFieldName| field.shown())
}

impl ResponseModel {
    /// The text of the answer; `None` for a status, which is shown as the
    /// state itself.
    pub open spec fn message(self) -> Option<Seq<char>> {
        match self {
            ResponseModel::Status(_) => None,
            ResponseModel::Verified(_, fields) => Some(
                "Verified the following fields: "@ + text::joined(names_shown(fields), ", "@),
            ),
            ResponseModel::UnknownCommand => Some("The provided command is unknown"@),
            ResponseModel::IdentityNotFound => Some(
                "Identity was not found or invalid query executed"@,
            ),
            ResponseModel::InvalidSyntax(Some(input)) => Some("Invalid input '"@ + input + "'"@),
            ResponseModel::InvalidSyntax(None) => Some("Invalid input"@),
            ResponseModel::FullyVerified(_) => Some(
                "Identity has been fully verified. The extrinsic will be submitted in a couple of minutes"@,
            ),
            ResponseModel::InternalError => Some(
                "An internal error occured. Please contact the architects."@,
            ),
            ResponseModel::Help => Some(
                "status <ADDR>\t\t\tShow the current verification status of the specified address.\nverify <ADDR> <FIELD>...\tVerify one or multiple fields of the specified address.\n"@,
            ),
        }
    }
}

impl Response {
    /// The text of the answer; `None` for a status, which is shown as the
    /// state itself.
    pub fn message(&self) -> (message: Option<String>)
        ensures
            match message {
                Some(m) => self@.message() == Some(m@),
                None => self@.message() is None,
            },
    {
        match self {
            Response::Status(_) => None,
            Response::Verified(_, fields) => {
                let mut all = String::new();
                let mut i: usize = 0;
                let ghost names = names_shown(fields@);
                while i < fields.len()
                    invariant
                        i <= fields@.len(),
                        names == names_shown(fields@),
                        all@ == text::joined(names.take(i as int), ", "@),
                    decreases fields@.len() - i,
                {
                    let ghost before = all@;
                    if i > 0 {
                        text::push_text(&mut all, ", ");
                    }
                    text::push_text(&mut all, fields[i].as_str());
                    proof {
                        let taken = names.take(i + 1);
                        assert(taken.drop_last() =~= names.take(i as int));
                        assert(taken.last() == names[i as int]);
                        if i == 0 {
                            assert(before =~= Seq::<char>::empty());
                            assert(all@ =~= taken[0]);
                        } else {
                            assert(all@ =~= before + ", "@ + taken.last());
                        }
                    }
                    i += 1;
                }
                assert(names.take(i as int) =~= names);
                Some(text::concat("Verified the following fields: ", all.as_str()))
            },
            Response::UnknownCommand => Some("The provided command is unknown".to_owned()),
            Response::IdentityNotFound => Some(
                "Identity was not found or invalid query executed".to_owned(),
            ),
            Response::InvalidSyntax(input) => match input {
                Some(input) => {
                    let mut message = text::concat("Invalid input '", input.as_str());
                    text::push_text(&mut message, "'");
                    Some(message)
                },
                None => Some("Invalid input".to_owned()),
            },
            Response::FullyVerified(_) => Some(
                "Identity has been fully verified. The extrinsic will be submitted in a couple of minutes".to_owned(),
            ),
            Response::InternalError => Some(
                "An internal error occured. Please contact the architects.".to_owned(),
            ),
            Response::Help => Some(
                "status <ADDR>\t\t\tShow the current verification status of the specified address.\nverify <ADDR> <FIELD>...\tVerify one or multiple fields of the specified address.\n".to_owned(),
            ),
        }
    }
}

/// The context of an address of which only the text is known: addresses of
/// Polkadot begin with `1`, all others are taken for Kusama.
pub open spec fn context_of(address: Seq<char>) -> ContextModel {
    ContextModel {
        address,
        chain: if address.len() > 0 && address[0] == '1' {
            ChainName::Polkadot
        } else {
            ChainName::Kusama
        },
    }
}

/// Creates a full identity context when only the address itself is present.
/// Only supports Kusama and Polkadot for now.
pub fn create_context(address: ChainAddress) -> (context: IdentityContext)
    ensures
        context@ == context_of(address@),
{
    proof {
        reveal_strlit("1");
    }
    let chars = text::to_chars(address.as_str());
    let chain = if text::starts_with(&chars, "1") {
        assert(address@.take(1)[0] == '1');
        ChainName::Polkadot
    } else {
        assert(address@.len() > 0 && address@[0] == '1' ==> address@.take(1) =~= "1"@);
        ChainName::Kusama
    };
    IdentityContext { address, chain }
}

/// What is to be done next for a command.
#[derive(Debug)]
pub enum AdminStep {
    /// Look the state of the identity up and hand it to [`answer_status`].
    FetchState(IdentityContext),
    /// Verify the full identity and hand what came of it to
    /// [`answer_full_verification`], with the address.
    VerifyIdentity(ChainAddress, IdentityContext),
    /// Verify the field that the task is at and let the task
    /// [`resume`](FieldVerification::resume) with what came of it.
    VerifyField(FieldVerification),
    /// Send the answer. There is nothing else to do.
    Answer(Response),
}

/// What an [`AdminStep`] holds.
#[verifier::ext_equal]
pub enum AdminStepModel {
    FetchState(ContextModel),
    VerifyIdentity(Seq<char>, ContextModel),
    VerifyField(FieldVerificationModel),
    Answer(ResponseModel),
}

impl View for AdminStep {
    type V = AdminStepModel;

    open spec fn view(&self) -> AdminStepModel {
        match self {
            AdminStep::FetchState(context) => AdminStepModel::FetchState(context@),
            AdminStep::VerifyIdentity(address, context) => AdminStepModel::VerifyIdentity(
                address@,
                context@,
            ),
            AdminStep::VerifyField(task) => AdminStepModel::VerifyField(task@),
            AdminStep::Answer(response) => AdminStepModel::Answer(response@),
        }
    }
}

/// The verification of one field after the other.
#[derive(Debug)]
pub struct FieldVerification {
    address: ChainAddress,
    context: IdentityContext,
    fields: Vec<RawFieldName>,
    next: usize,
}

/// What a [`FieldVerification`] holds: the fields to verify of the identity
/// at the address, and the place of the one that the task is at.
#[verifier::ext_equal]
pub struct FieldVerificationModel {
    pub address: Seq<char>,
    pub context: ContextModel,
    pub fields: Seq<RawFieldName>,
    pub next: int,
}

impl FieldVerificationModel {
    /// What is to be done once all fields before `next` are verified: the
    /// field there, or the answer where none is left.
    pub open spec fn at(address: Seq<char>, fields: Seq<RawFieldName>, next: int) -> AdminStepModel {
        if next < fields.len() {
            AdminStepModel::VerifyField(
                FieldVerificationModel { address, context: context_of(address), fields, next },
            )
        } else {
            AdminStepModel::Answer(ResponseModel::Verified(address, fields))
        }
    }

    /// What is to be done once the field that the task is at was tried.
    pub open spec fn resumed(self, found: Result<bool, DatabaseFailure>) -> AdminStepModel {
        match found {
            Ok(true) => FieldVerificationModel::at(self.address, self.fields, self.next + 1),
            Ok(false) => AdminStepModel::Answer(ResponseModel::IdentityNotFound),
            Err(_) => AdminStepModel::Answer(ResponseModel::InternalError),
        }
    }
}

impl View for FieldVerification {
    type V = FieldVerificationModel;

    closed spec fn view(&self) -> FieldVerificationModel {
        FieldVerificationModel {
            address: self.address@,
            context: self.context@,
            fields: self.fields@,
            next: self.next as int,
        }
    }
}

impl FieldVerification {
    #[verifier::type_invariant]
    spec fn well_formed(&self) -> bool {
        &&& self.next < self.fields@.len()
        &&& self.context@ == context_of(self.address@)
    }

    /// The identity that the field belongs to.
    pub fn context(&self) -> (context: &IdentityContext)
        ensures
            context@ == self@.context,
    {
        &self.context
    }

    /// The field to verify.
    pub fn field(&self) -> (field: RawFieldName)
        ensures
            0 <= self@.next < self@.fields.len(),
            field == self@.fields[self@.next],
    {
        proof {
            use_type_invariant(self);
        }
        self.fields[self.next]
    }

    /// Goes on once the field was tried: `true` where the identity has it,
    /// `false` where it was not found.
    pub fn resume(self, found: Result<bool, DatabaseFailure>) -> (step: AdminStep)
        ensures
            step@ == self@.resumed(found),
    {
        proof {
            use_type_invariant(&self);
        }
        match found {
            Ok(true) => {
                let count: usize = self.fields.len();
                if self.next + 1 < count {
                    AdminStep::VerifyField(
                        FieldVerification {
                            address: self.address,
                            context: self.context,
                            fields: self.fields,
                            next: self.next + 1,
                        },
                    )
                } else {
                    AdminStep::Answer(Response::Verified(self.address, self.fields))
                }
            },
            Ok(false) => AdminStep::Answer(Response::IdentityNotFound),
            Err(_) => AdminStep::Answer(Response::InternalError),
        }
    }
}

/// What is to be done first for the command.
pub open spec fn admin_begun(command: CommandModel) -> AdminStepModel {
    match command {
        CommandModel::Status(address) => AdminStepModel::FetchState(context_of(address)),
        CommandModel::Verify(address, fields) => if fields.contains(RawFieldName::All) {
            AdminStepModel::VerifyIdentity(address, context_of(address))
        } else {
            FieldVerificationModel::at(address, fields, 0)
        },
        CommandModel::Help => AdminStepModel::Answer(ResponseModel::Help),
    }
}

/// Begins to carry a command out: says what is to be done first.
pub fn process_admin(command: Command) -> (step: AdminStep)
    ensures
        step@ == admin_begun(command@),
{
    match command {
        Command::Status(address) => AdminStep::FetchState(create_context(address)),
        Command::Verify(address, fields) => {
            let context = create_context(address.clone());
            let mut i: usize = 0;
            while i < fields.len()
                invariant
                    i <= fields@.len(),
                    forall|j: int| 0 <= j < i ==> !(fields@[j] is All),
                    command@ == CommandModel::Verify(address@, fields@),
                    context@ == context_of(address@),
                decreases fields@.len() - i,
            {
                if fields[i] == RawFieldName::All {
                    return AdminStep::VerifyIdentity(address, context);
                }
                i += 1;
            }
            assert(!fields@.contains(RawFieldName::All));
            if fields.len() > 0 {
                AdminStep::VerifyField(FieldVerification { address, context, fields, next: 0 })
            } else {
                AdminStep::Answer(Response::Verified(address, fields))
            }
        },
        Command::Help => AdminStep::Answer(Response::Help),
    }
}

/// The answer to a status command, from what the database holds.
pub fn answer_status(found: Result<Option<JudgementState>, DatabaseFailure>) -> (response: Response)
    ensures
        response@ == match found {
            Ok(Some(state)) => ResponseModel::Status(state@.blanked()),
            Ok(None) => ResponseModel::IdentityNotFound,
            Err(_) => ResponseModel::InternalError,
        },
{
    match found {
        Ok(Some(state)) => Response::Status(JudgementStateBlanked::from(state)),
        Ok(None) => Response::IdentityNotFound,
        Err(_) => Response::InternalError,
    }
}

/// The answer to a command that verifies the full identity at the address:
/// `true` where there is such an identity, `false` where there is none.
pub fn answer_full_verification(address: ChainAddress, found: Result<bool, DatabaseFailure>) -> (response:
    Response)
    ensures
        response@ == match found {
            Ok(true) => ResponseModel::FullyVerified(address@),
            Ok(false) => ResponseModel::IdentityNotFound,
            Err(_) => ResponseModel::InternalError,
        },
{
    match found {
        Ok(true) => Response::FullyVerified(address),
        Ok(false) => Response::IdentityNotFound,
        Err(_) => Response::InternalError,
    }
}

/// The step that is reached from the given one when the fields that it tries
/// one after the other come to the given ends.
pub open spec fn fields_tried(
    step: AdminStepModel,
    ends: Seq<Result<bool, DatabaseFailure>>,
) -> AdminStepModel
    decreases ends.len(),
{
    if ends.len() == 0 {
        step
    } else {
        match fields_tried(step, ends.drop_last()) {
            AdminStepModel::VerifyField(task) => task.resumed(ends.last()),
            reached => reached,
        }
    }
}

/// The fields of a verify command are verified in the order in which they
/// were given, each of them once, and the answer names all of them once the
/// last is verified.
pub proof fn law_fields_are_verified_in_order(
    address: Seq<char>,
    fields: Seq<RawFieldName>,
    ends: Seq<Result<bool, DatabaseFailure>>,
)
    requires
        !fields.contains(RawFieldName::All),
        ends.len() <= fields.len(),
        forall|i: int| 0 <= i < ends.len() ==> #[trigger] ends[i] == Ok::<bool, DatabaseFailure>(true),
    ensures
        fields_tried(admin_begun(CommandModel::Verify(address, fields)), ends)
            == FieldVerificationModel::at(address, fields, ends.len() as int),
    decreases ends.len(),
{
    if ends.len() > 0 {
        law_fields_are_verified_in_order(address, fields, ends.drop_last());
        assert(ends.last() == Ok::<bool, DatabaseFailure>(true));
    }
}

/// The first field that cannot be verified ends a verify command: no later
/// field is tried, and the answer tells why.
pub proof fn law_first_failure_ends_verification(
    address: Seq<char>,
    fields: Seq<RawFieldName>,
    ends: Seq<Result<bool, DatabaseFailure>>,
    first: int,
)
    requires
        !fields.contains(RawFieldName::All),
        0 <= first < ends.len() <= fields.len(),
        forall|i: int| 0 <= i < first ==> #[trigger] ends[i] == Ok::<bool, DatabaseFailure>(true),
        ends[first] != Ok::<bool, DatabaseFailure>(true),
    ensures
        fields_tried(admin_begun(CommandModel::Verify(address, fields)), ends)
            == AdminStepModel::Answer(
            if ends[first] is Err {
                ResponseModel::InternalError
            } else {
                ResponseModel::IdentityNotFound
            },
        ),
    decreases ends.len(),
{
    if first < ends.len() - 1 {
        law_first_failure_ends_verification(address, fields, ends.drop_last(), first);
    } else {
        law_fields_are_verified_in_order(address, fields, ends.drop_last());
    }
}

/// A verify command that names the full identity among its fields verifies
/// that alone, wherever it names it.
pub proof fn law_all_takes_precedence(address: Seq<char>, fields: Seq<RawFieldName>)
    requires
        fields.contains(RawFieldName::All),
    ensures
        admin_begun(CommandModel::Verify(address, fields)) == AdminStepModel::VerifyIdentity(
            address,
            context_of(address),
        ),
{
}

/// An address is that of Polkadot exactly when it begins with `1`, and of
/// Kusama otherwise; the address itself is kept.
pub proof fn law_context_follows_the_address(address: Seq<char>, rest: Seq<char>)
    ensures
        context_of(address).address == address,
        context_of(seq!['1'] + rest).chain is Polkadot,
        address.len() == 0 || address[0] != '1' ==> context_of(address).chain is Kusama,
{
}

/// A status command looks the identity at its address up, a help command is
/// answered at once, and a verify command without a field names none.
pub proof fn law_commands_begin_with_their_own_step(address: Seq<char>)
    ensures
        admin_begun(CommandModel::Status(address)) matches AdminStepModel::FetchState(context)
            && context.address == address && (context.chain is Polkadot <==> address.len() > 0
            && address[0] == '1'),
        admin_begun(CommandModel::Help) == AdminStepModel::Answer(ResponseModel::Help),
        admin_begun(CommandModel::Verify(address, Seq::empty())) == AdminStepModel::Answer(
            ResponseModel::Verified(address, Seq::empty()),
        ),
{
    assert(!Seq::<RawFieldName>::empty().contains(RawFieldName::All));
}

/// A verify command that names no full identity tries its fields one after
/// the other: after so many were verified, the next one of the same identity
/// is tried, and once none is left, the answer names all of them.
pub proof fn law_next_field_is_tried(
    address: Seq<char>,
    fields: Seq<RawFieldName>,
    ends: Seq<Result<bool, DatabaseFailure>>,
)
    requires
        !fields.contains(RawFieldName::All),
        ends.len() <= fields.len(),
        forall|i: int| 0 <= i < ends.len() ==> #[trigger] ends[i] == Ok::<bool, DatabaseFailure>(true),
    ensures
        ({
            let reached = fields_tried(admin_begun(CommandModel::Verify(address, fields)), ends);
            &&& ends.len() < fields.len() ==> (reached matches AdminStepModel::VerifyField(task)
                && task.fields[task.next] == fields[ends.len() as int] && task.fields == fields
                && task.address == address && task.context.address == address && (
            task.context.chain is Polkadot <==> address.len() > 0 && address[0] == '1'))
            &&& ends.len() == fields.len() ==> reached == AdminStepModel::Answer(
                ResponseModel::Verified(address, fields),
            )
        }),
{
    law_fields_are_verified_in_order(address, fields, ends);
}

/// The answer to a verify command lists the fields in order, each by its
/// shown name and with a comma between each two, whatever the address.
pub proof fn law_answer_lists_every_field(
    address: Seq<char>,
    other: Seq<char>,
    fields: Seq<RawFieldName>,
    field: RawFieldName,
)
    ensures
        ResponseModel::Verified(address, seq![field]).message() == Some(
            "Verified the following fields: "@ + field.shown(),
        ),
        fields.len() > 0 ==> (ResponseModel::Verified(address, fields).message() matches Some(
            message,
        ) && ResponseModel::Verified(other, fields.push(field)).message() == Some(
            message + ", "@ + field.shown(),
        )),
{
    assert(names_shown(seq![field]) =~= seq![field.shown()]);
    text::law_join_goes_by_pieces(names_shown(fields), field.shown(), ", "@);
    assert(names_shown(fields.push(field)) =~= names_shown(fields).push(field.shown()));
    let head = "Verified the following fields: "@;
    let list = text::joined(names_shown(fields), ", "@);
    assert(head + (list + ", "@ + field.shown()) =~= head + list + ", "@ + field.shown());
}

/// An invalid input is quoted in the answer, whatever it is, and a state has
/// no text but itself.
pub proof fn law_answer_quotes_the_input(input: Seq<char>, state: BlankedStateModel)
    ensures
        ResponseModel::InvalidSyntax(Some(input)).message() == Some(
            "Invalid input '"@ + input + "'"@,
        ),
        ResponseModel::Status(state).message() is None,
{
}

/// That an identity is fully verified is answered alike for every address.
pub proof fn law_full_verification_is_answered_alike(address: Seq<char>)
    ensures
        ResponseModel::FullyVerified(address).message() == Some(
            "Identity has been fully verified. The extrinsic will be submitted in a couple of minutes"@,
        ),
{
}

} // verus!
