//! On-chain identities: the address, the accounts that it claims, and the
//! fields that those accounts become.
use crate::hex_text;
use crate::message::{ExternalMessage, ExternalMessageType, OriginModel};
use crate::text;
use vstd::prelude::*;
use vstd::std_specs::cmp::PartialEqSpecImpl;
use vstd::std_specs::convert::FromSpecImpl;

verus! {

/// An address on a chain.
#[derive(Debug, Hash)]
pub struct ChainAddress(pub String);

impl View for ChainAddress {
    type V = Seq<char>;

    open spec fn view(&self) -> Seq<char> {
        self.0@
    }
}

impl ChainAddress {
    /// The text of the address.
    pub fn as_str(&self) -> (text: &str)
        ensures
            text@ == self@,
    {
        self.0.as_str()
    }
}

impl Clone for ChainAddress {
    fn clone(&self) -> (copy: Self)
        ensures
            copy@ == self@,
    {
        ChainAddress(self.0.clone())
    }
}

impl PartialEq for ChainAddress {
    fn eq(&self, other: &Self) -> (same: bool) {
        self.0 == other.0
    }
}

impl PartialEqSpecImpl for ChainAddress {
    open spec fn obeys_eq_spec() -> bool {
        true
    }

    open spec fn eq_spec(&self, other: &Self) -> bool {
        self@ == other@
    }
}

impl Eq for ChainAddress {

}

impl From<String> for ChainAddress {
    fn from(v: String) -> (address: Self) {
        ChainAddress(v)
    }
}

impl FromSpecImpl<String> for ChainAddress {
    open spec fn obeys_from_spec() -> bool {
        true
    }

    open spec fn from_spec(v: String) -> ChainAddress {
        ChainAddress(v)
    }
}

/// A chain that the registrar serves.
#[derive(Debug, Clone, Copy, PartialEq, Eq, Structural, Hash)]
pub enum ChainName {
    Polkadot,
    Kusama,
}

impl ChainName {
    /// The name of the chain.
    pub fn as_str(&self) -> (name: &'static str)
        ensures
            name@ == match self {
                ChainName::Polkadot => "polkadot"@,
                ChainName::Kusama => "kusama"@,
            },
    {
        match self {
            ChainName::Polkadot => "polkadot",
            ChainName::Kusama => "kusama",
        }
    }
}

/// An address together with the chain that it belongs to.
#[derive(Debug, Hash)]
pub struct IdentityContext {
    pub address: ChainAddress,
    pub chain: ChainName,
}

/// What an [`IdentityContext`] holds.
pub struct ContextModel {
    pub address: Seq<char>,
    pub chain: ChainName,
}

impl View for IdentityContext {
    type V = ContextModel;

    open spec fn view(&self) -> ContextModel {
        ContextModel { address: self.address@, chain: self.chain }
    }
}

impl IdentityContext {
    /// The context of the address on the network.
    pub fn new(addr: ChainAddress, network: ChainName) -> (context: Self)
        ensures
            context@ == (ContextModel { address: addr@, chain: network }),
    {
        IdentityContext { address: addr, chain: network }
    }
}

impl Clone for IdentityContext {
    fn clone(&self) -> (copy: Self)
        ensures
            copy@ == self@,
    {
        IdentityContext { address: self.address.clone(), chain: self.chain }
    }
}

impl PartialEq for IdentityContext {
    fn eq(&self, other: &Self) -> (same: bool) {
        self.address == other.address && self.chain == other.chain
    }
}

impl PartialEqSpecImpl for IdentityContext {
    open spec fn obeys_eq_spec() -> bool {
        true
    }

    open spec fn eq_spec(&self, other: &Self) -> bool {
        self@ == other@
    }
}

impl Eq for IdentityContext {

}

/// The kinds of account that an identity can claim.
#[derive(Debug, Clone, Copy, PartialEq, Eq, Structural, Hash)]
pub enum AccountType {
    LegalName,
    DisplayName,
    Email,
    Web,
    Twitter,
    Matrix,
    PGPFingerprint,
    Image,
    Additional,
}

/// One claimed account of an identity.
#[derive(Debug, PartialEq, Eq)]
pub enum IdentityFieldValue {
    LegalName(String),
    DisplayName(String),
    Email(String),
    Web(String),
    Twitter(String),
    Matrix(String),
    PGPFingerprint(()),
    Image(()),
    Additional(()),
}

/// What an [`IdentityFieldValue`] holds.
pub enum FieldValueModel {
    LegalName(Seq<char>),
    DisplayName(Seq<char>),
    Email(Seq<char>),
    Web(Seq<char>),
    Twitter(Seq<char>),
    Matrix(Seq<char>),
    PGPFingerprint,
    Image,
    Additional,
}

impl FieldValueModel {
    /// The field that an account of the type with the value becomes: Twitter
    /// handles are kept in lower case, and the last three types keep no value.
    pub open spec fn of(ty: AccountType, value: Seq<char>) -> FieldValueModel {
        match ty {
            AccountType::LegalName => FieldValueModel::LegalName(value),
            AccountType::DisplayName => FieldValueModel::DisplayName(value),
            AccountType::Email => FieldValueModel::Email(value),
            AccountType::Web => FieldValueModel::Web(value),
            AccountType::Twitter => FieldValueModel::Twitter(text::lowercase(value)),
            AccountType::Matrix => FieldValueModel::Matrix(value),
            AccountType::PGPFingerprint => FieldValueModel::PGPFingerprint,
            AccountType::Image => FieldValueModel::Image,
            AccountType::Additional => FieldValueModel::Additional,
        }
    }

    /// The type of account that the field is.
    pub open spec fn account_type(self) -> AccountType {
        match self {
            FieldValueModel::LegalName(_) => AccountType::LegalName,
            FieldValueModel::DisplayName(_) => AccountType::DisplayName,
            FieldValueModel::Email(_) => AccountType::Email,
            FieldValueModel::Web(_) => AccountType::Web,
            FieldValueModel::Twitter(_) => AccountType::Twitter,
            FieldValueModel::Matrix(_) => AccountType::Matrix,
            FieldValueModel::PGPFingerprint => AccountType::PGPFingerprint,
            FieldValueModel::Image => AccountType::Image,
            FieldValueModel::Additional => AccountType::Additional,
        }
    }

    /// The value that the field keeps; empty where it keeps none.
    pub open spec fn value(self) -> Seq<char> {
        match self {
            FieldValueModel::LegalName(v) => v,
            FieldValueModel::DisplayName(v) => v,
            FieldValueModel::Email(v) => v,
            FieldValueModel::Web(v) => v,
            FieldValueModel::Twitter(v) => v,
            FieldValueModel::Matrix(v) => v,
            _ => Seq::empty(),
        }
    }

    /// Whether the field is an account of the type with the value. The value
    /// plays no part for the types that keep none.
    pub open spec fn matches(self, ty: AccountType, value: Seq<char>) -> bool {
        self.account_type() == ty && (keeps_value(ty) ==> self.value() == value)
    }

    /// Whether a message from the origin was sent by the account of the field.
    pub open spec fn sent(self, origin: OriginModel) -> bool {
        match origin {
            OriginModel::Email(name) => self == FieldValueModel::Email(name),
            OriginModel::Twitter(name) => self == FieldValueModel::Twitter(name),
            OriginModel::Matrix(name) => self == FieldValueModel::Matrix(name),
        }
    }
}

/// Whether fields of the type keep the value of the account.
pub open spec fn keeps_value(ty: AccountType) -> bool {
    !(ty is PGPFingerprint || ty is Image || ty is Additional)
}

impl View for IdentityFieldValue {
    type V = FieldValueModel;

    open spec fn view(&self) -> FieldValueModel {
        match self {
            IdentityFieldValue::LegalName(v) => FieldValueModel::LegalName(v@),
            IdentityFieldValue::DisplayName(v) => FieldValueModel::DisplayName(v@),
            IdentityFieldValue::Email(v) => FieldValueModel::Email(v@),
            IdentityFieldValue::Web(v) => FieldValueModel::Web(v@),
            IdentityFieldValue::Twitter(v) => FieldValueModel::Twitter(v@),
            IdentityFieldValue::Matrix(v) => FieldValueModel::Matrix(v@),
            IdentityFieldValue::PGPFingerprint(_) => FieldValueModel::PGPFingerprint,
            IdentityFieldValue::Image(_) => FieldValueModel::Image,
            IdentityFieldValue::Additional(_) => FieldValueModel::Additional,
        }
    }
}

impl Clone for IdentityFieldValue {
    fn clone(&self) -> (copy: Self)
        ensures
            copy@ == self@,
    {
        match self {
            IdentityFieldValue::LegalName(v) => IdentityFieldValue::LegalName(v.clone()),
            IdentityFieldValue::DisplayName(v) => IdentityFieldValue::DisplayName(v.clone()),
            IdentityFieldValue::Email(v) => IdentityFieldValue::Email(v.clone()),
            IdentityFieldValue::Web(v) => IdentityFieldValue::Web(v.clone()),
            IdentityFieldValue::Twitter(v) => IdentityFieldValue::Twitter(v.clone()),
            IdentityFieldValue::Matrix(v) => IdentityFieldValue::Matrix(v.clone()),
            IdentityFieldValue::PGPFingerprint(_) => IdentityFieldValue::PGPFingerprint(()),
            IdentityFieldValue::Image(_) => IdentityFieldValue::Image(()),
            IdentityFieldValue::Additional(_) => IdentityFieldValue::Additional(()),
        }
    }
}

impl From<(AccountType, String)> for IdentityFieldValue {
    fn from(val: (AccountType, String)) -> (field: Self)
        ensures
            field@ == FieldValueModel::of(val.0, val.1@),
    {
        let (ty, value) = val;
        match ty {
            AccountType::LegalName => IdentityFieldValue::LegalName(value),
            AccountType::DisplayName => IdentityFieldValue::DisplayName(value),
            AccountType::Email => IdentityFieldValue::Email(value),
            AccountType::Web => IdentityFieldValue::Web(value),
            AccountType::Twitter => IdentityFieldValue::Twitter(value.as_str().to_lowercase()),
            AccountType::Matrix => IdentityFieldValue::Matrix(value),
            AccountType::PGPFingerprint => IdentityFieldValue::PGPFingerprint(()),
            AccountType::Image => IdentityFieldValue::Image(()),
            AccountType::Additional => IdentityFieldValue::Additional(()),
        }
    }
}

impl FromSpecImpl<(AccountType, String)> for IdentityFieldValue {
    open spec fn obeys_from_spec() -> bool {
        false
    }

    open spec fn from_spec(val: (AccountType, String)) -> IdentityFieldValue {
        arbitrary()
    }
}

impl IdentityFieldValue {
    /// The type of account that the field is, and the value that it keeps.
    pub fn as_account_type(&self) -> (account: (AccountType, String))
        ensures
            account.0 == self@.account_type(),
            account.1@ == self@.value(),
    {
        match self {
            IdentityFieldValue::LegalName(val) => (AccountType::LegalName, val.clone()),
            IdentityFieldValue::DisplayName(val) => (AccountType::DisplayName, val.clone()),
            IdentityFieldValue::Email(val) => (AccountType::Email, val.clone()),
            IdentityFieldValue::Web(val) => (AccountType::Web, val.clone()),
            IdentityFieldValue::Twitter(val) => (AccountType::Twitter, val.clone()),
            IdentityFieldValue::Matrix(val) => (AccountType::Matrix, val.clone()),
            IdentityFieldValue::PGPFingerprint(_) => (AccountType::PGPFingerprint, String::new()),
            IdentityFieldValue::Image(_) => (AccountType::Image, String::new()),
            IdentityFieldValue::Additional(_) => (AccountType::Additional, String::new()),
        }
    }

    /// Whether the field is an account of the type with the value.
    pub fn matches_type(&self, ty: &AccountType, value: &str) -> (yes: bool)
        ensures
            yes == self@.matches(*ty, value@),
    {
        match (self, ty) {
            (IdentityFieldValue::LegalName(val), AccountType::LegalName) => text::same_text(
                val.as_str(),
                value,
            ),
            (IdentityFieldValue::DisplayName(val), AccountType::DisplayName) => text::same_text(
                val.as_str(),
                value,
            ),
            (IdentityFieldValue::Email(val), AccountType::Email) => text::same_text(
                val.as_str(),
                value,
            ),
            (IdentityFieldValue::Web(val), AccountType::Web) => text::same_text(
                val.as_str(),
                value,
            ),
            (IdentityFieldValue::Twitter(val), AccountType::Twitter) => text::same_text(
                val.as_str(),
                value,
            ),
            (IdentityFieldValue::Matrix(val), AccountType::Matrix) => text::same_text(
                val.as_str(),
                value,
            ),
            (IdentityFieldValue::PGPFingerprint(_), AccountType::PGPFingerprint) => true,
            (IdentityFieldValue::Image(_), AccountType::Image) => true,
            (IdentityFieldValue::Additional(_), AccountType::Additional) => true,
            _ => false,
        }
    }

    /// Whether the message was sent by the account of the field.
    pub fn matches_origin(&self, message: &ExternalMessage) -> (yes: bool)
        ensures
            yes == self@.sent(message@.origin),
    {
        match self {
            IdentityFieldValue::Email(n1) => match &message.origin {
                ExternalMessageType::Email(n2) => *n1 == *n2,
                _ => false,
            },
            IdentityFieldValue::Twitter(n1) => match &message.origin {
                ExternalMessageType::Twitter(n2) => *n1 == *n2,
                _ => false,
            },
            IdentityFieldValue::Matrix(n1) => match &message.origin {
                ExternalMessageType::Matrix(n2) => *n1 == *n2,
                _ => false,
            },
            _ => false,
        }
    }
}

/// The accounts that an identity claims: at most one of each type, in the
/// order in which the types were first given.
#[derive(Debug)]
pub struct Accounts {
    entries: Vec<(AccountType, String)>,
}

/// No type is listed twice.
pub open spec fn types_distinct(listed: Seq<(AccountType, Seq<char>)>) -> bool {
    forall|i: int, j: int| 0 <= i < j < listed.len() ==> listed[i].0 != listed[j].0
}

/// The accounts with the display name decoded where it is a hexadecimal name.
pub open spec fn accounts_decoded(
    listed: Seq<(AccountType, Seq<char>)>,
) -> Seq<(AccountType, Seq<char>)> {
    listed.map_values(
        |account: (AccountType, Seq<char>)|
            if account.0 is DisplayName {
                (account.0, hex_text::display_text(account.1))
            } else {
                account
            },
    )
}

/// The fields that the accounts become.
pub open spec fn accounts_fields(listed: Seq<(AccountType, Seq<char>)>) -> Seq<FieldValueModel> {
    listed.map_values(
        |account: (AccountType, Seq<char>)| FieldValueModel::of(account.0, account.1),
    )
}

spec fn listed(entries: Seq<(AccountType, String)>) -> Seq<(AccountType, Seq<char>)> {
    entries.map_values(|entry: (AccountType, String)| (entry.0, entry.1@))
}

impl View for Accounts {
    type V = Seq<(AccountType, Seq<char>)>;

    closed spec fn view(&self) -> Seq<(AccountType, Seq<char>)> {
        listed(self.entries@)
    }
}

impl Accounts {
    #[verifier::type_invariant]
    spec fn well_formed(&self) -> bool {
        types_distinct(self@)
    }

    /// No accounts.
    pub fn new() -> (accounts: Self)
        ensures
            accounts@ == Seq::<(AccountType, Seq<char>)>::empty(),
    {
        let accounts = Accounts { entries: Vec::new() };
        assert(accounts@ =~= Seq::<(AccountType, Seq<char>)>::empty());
        accounts
    }

    /// How many accounts there are.
    pub fn len(&self) -> (n: usize)
        ensures
            n == self@.len(),
    {
        self.entries.len()
    }

    /// The accounts in their order. No type occurs twice.
    pub fn entries(&self) -> (entries: &Vec<(AccountType, String)>)
        ensures
            entries@.map_values(|entry: (AccountType, String)| (entry.0, entry.1@)) == self@,
            types_distinct(self@),
    {
        proof {
            use_type_invariant(self);
        }
        &self.entries
    }

    /// The place of the account of the type.
    fn place(&self, ty: AccountType) -> (place: Option<usize>)
        ensures
            match place {
                Some(i) => i < self@.len() && self@[i as int].0 == ty,
                None => forall|i: int| 0 <= i < self@.len() ==> self@[i].0 != ty,
            },
    {
        let mut i: usize = 0;
        while i < self.entries.len()
            invariant
                i <= self.entries@.len(),
                forall|j: int| 0 <= j < i ==> self.entries@[j].0 != ty,
            decreases self.entries@.len() - i,
        {
            if self.entries[i].0 == ty {
                return Some(i);
            }
            i += 1;
        }
        None
    }

    /// The value of the account of the type; `None` where there is no such
    /// account.
    pub fn get(&self, ty: AccountType) -> (value: Option<&String>)
        ensures
            match value {
                Some(v) => self@.contains((ty, v@)),
                None => forall|i: int| 0 <= i < self@.len() ==> (#[trigger] self@[i]).0 != ty,
            },
            types_distinct(self@),
    {
        proof {
            use_type_invariant(self);
        }
        match self.place(ty) {
            Some(i) => {
                assert(self@[i as int] == (ty, self.entries@[i as int].1@));
                Some(&self.entries[i].1)
            },
            None => None,
        }
    }

    /// Sets the account of the type. A new type goes to the end; a type that
    /// is there keeps its place, and its former value is returned.
    pub fn insert(&mut self, ty: AccountType, value: String) -> (former: Option<String>)
        ensures
            forall|i: int|
                0 <= i < old(self)@.len() && (#[trigger] old(self)@[i]).0 == ty ==> {
                    &&& final(self)@ == old(self)@.update(i, (ty, value@))
                    &&& former matches Some(f) && f@ == old(self)@[i].1
                },
            (forall|i: int| 0 <= i < old(self)@.len() ==> (#[trigger] old(self)@[i]).0 != ty) ==> {
                &&& final(self)@ == old(self)@.push((ty, value@))
                &&& former is None
            },
    {
        proof {
            use_type_invariant(&*self);
        }
        let place = self.place(ty);
        let mut entries: Vec<(AccountType, String)> = Vec::new();
        std::mem::swap(&mut entries, &mut self.entries);
        let ghost before = entries@;
        match place {
            Some(i) => {
                let (_, former) = entries.remove(i);
                entries.insert(i, (ty, value));
                proof {
                    assert(entries@ =~= before.update(i as int, entries@[i as int]));
                    assert(listed(entries@) =~= listed(before).update(i as int, (ty, value@)));
                }
                self.entries = entries;
                Some(former)
            },
            None => {
                entries.push((ty, value));
                proof {
                    assert(listed(entries@) =~= listed(before).push((ty, value@)));
                }
                self.entries = entries;
                None
            },
        }
    }

    /// Takes the account of the type away and returns its value; the others
    /// keep their order.
    pub fn remove(&mut self, ty: AccountType) -> (former: Option<String>)
        ensures
            forall|i: int|
                0 <= i < old(self)@.len() && (#[trigger] old(self)@[i]).0 == ty ==> {
                    &&& final(self)@ == old(self)@.remove(i)
                    &&& former matches Some(f) && f@ == old(self)@[i].1
                },
            (forall|i: int| 0 <= i < old(self)@.len() ==> (#[trigger] old(self)@[i]).0 != ty) ==> {
                &&& final(self)@ == old(self)@
                &&& former is None
            },
    {
        proof {
            use_type_invariant(&*self);
        }
        let place = self.place(ty);
        match place {
            Some(i) => {
                let mut entries: Vec<(AccountType, String)> = Vec::new();
                std::mem::swap(&mut entries, &mut self.entries);
                let ghost before = entries@;
                let (_, former) = entries.remove(i);
                proof {
                    assert(listed(entries@) =~= listed(before).remove(i as int));
                }
                self.entries = entries;
                Some(former)
            },
            None => None,
        }
    }

    /// Decodes the display name if there is one and it can be decoded.
    pub fn decode_display_name(&mut self)
        ensures
            final(self)@ == accounts_decoded(old(self)@),
    {
        proof {
            use_type_invariant(&*self);
        }
        let place = self.place(AccountType::DisplayName);
        let ghost all = self@;
        match place {
            Some(i) => {
                let mut entries: Vec<(AccountType, String)> = Vec::new();
                std::mem::swap(&mut entries, &mut self.entries);
                let ghost before = entries@;
                let (ty, mut name) = entries.remove(i);
                hex_text::try_decode_hex(&mut name);
                entries.insert(i, (ty, name));
                proof {
                    assert(all[i as int] == (before[i as int].0, before[i as int].1@));
                    assert(listed(entries@) =~= accounts_decoded(all));
                }
                self.entries = entries;
            },
            None => {
                assert(accounts_decoded(all) =~= all);
            },
        }
    }

    /// The fields that the accounts become, in their order.
    pub fn into_fields(self) -> (fields: Vec<IdentityFieldValue>)
        ensures
            fields@.map_values(|field: IdentityFieldValue| field@) == accounts_fields(self@),
    {
        let mut fields: Vec<IdentityFieldValue> = Vec::new();
        let entries = self.entries;
        let ghost all = entries@;
        for entry in it: entries
            invariant
                it.seq() == all,
                fields@.map_values(|field: IdentityFieldValue| field@) == accounts_fields(
                    listed(all),
                ).take(it.index() as int),
        {
            let ghost before = fields@;
            fields.push(IdentityFieldValue::from(entry));
            assert(fields@.map_values(|field: IdentityFieldValue| field@)
                =~= before.map_values(|field: IdentityFieldValue| field@).push(fields@.last()@));
        }
        fields
    }
}

impl Clone for Accounts {
    fn clone(&self) -> (copy: Self)
        ensures
            copy@ == self@,
    {
        let mut entries: Vec<(AccountType, String)> = Vec::new();
        let mut i: usize = 0;
        while i < self.entries.len()
            invariant
                i <= self.entries@.len(),
                listed(entries@) == listed(self.entries@).take(i as int),
            decreases self.entries@.len() - i,
        {
            let ghost before = entries@;
            entries.push((self.entries[i].0, self.entries[i].1.clone()));
            i += 1;
            assert(listed(entries@) =~= listed(before).push(listed(self.entries@)[i - 1]));
        }
        proof {
            use_type_invariant(self);
            assert(listed(entries@) =~= listed(self.entries@));
        }
        Accounts { entries }
    }
}

/// The field that an account becomes is of the type of the account.
pub proof fn law_field_keeps_account_type(ty: AccountType, value: Seq<char>)
    ensures
        FieldValueModel::of(ty, value).account_type() == ty,
{
}

/// A field matches the account that it gives out.
pub proof fn law_field_matches_its_account(field: FieldValueModel)
    ensures
        field.matches(field.account_type(), field.value()),
{
}

/// The field that an account becomes matches the account, unless it is a
/// Twitter handle with capitals, which the field keeps in lower case.
pub proof fn law_field_matches_source(ty: AccountType, value: Seq<char>)
    requires
        ty is Twitter ==> text::lowercase(value) == value,
    ensures
        FieldValueModel::of(ty, value).matches(ty, value),
{
}

/// Only email, Twitter and Matrix fields can have sent a message, and a
/// message has at most one such field as its sender.
pub proof fn law_sender_is_unique(first: FieldValueModel, second: FieldValueModel, origin: OriginModel)
    requires
        first.sent(origin),
        second.sent(origin),
    ensures
        first == second,
        first is Email || first is Twitter || first is Matrix,
{
}

/// Each account becomes the field of its kind with its value, but for a
/// Twitter handle, which is kept in lower case, and for the kinds that keep
/// no value.
pub proof fn law_account_becomes_its_field(value: Seq<char>)
    ensures
        FieldValueModel::of(AccountType::LegalName, value) == FieldValueModel::LegalName(value),
        FieldValueModel::of(AccountType::DisplayName, value) == FieldValueModel::DisplayName(value),
        FieldValueModel::of(AccountType::Email, value) == FieldValueModel::Email(value),
        FieldValueModel::of(AccountType::Web, value) == FieldValueModel::Web(value),
        FieldValueModel::of(AccountType::Twitter, value) == FieldValueModel::Twitter(
            text::lowercase(value),
        ),
        FieldValueModel::of(AccountType::Matrix, value) == FieldValueModel::Matrix(value),
        FieldValueModel::of(AccountType::PGPFingerprint, value) == FieldValueModel::PGPFingerprint,
        FieldValueModel::of(AccountType::Image, value) == FieldValueModel::Image,
        FieldValueModel::of(AccountType::Additional, value) == FieldValueModel::Additional,
{
}

/// A field that an account became gives out the account again: its type, and
/// its value but for the case of a Twitter handle, or nothing for the kinds
/// that keep no value.
pub proof fn law_field_gives_its_account_back(ty: AccountType, value: Seq<char>)
    ensures
        FieldValueModel::of(ty, value).account_type() == ty,
        FieldValueModel::of(ty, value).value() == match ty {
            AccountType::Twitter => text::lowercase(value),
            AccountType::PGPFingerprint => Seq::<char>::empty(),
            AccountType::Image => Seq::<char>::empty(),
            AccountType::Additional => Seq::<char>::empty(),
            _ => value,
        },
{
}

/// The field of one account matches another account exactly when both are of
/// one type and, where the type keeps a value, have one value; of a Twitter
/// handle the field has the lower case.
pub proof fn law_field_matches_equal_accounts_only(
    ty: AccountType,
    value: Seq<char>,
    other_ty: AccountType,
    other: Seq<char>,
)
    ensures
        FieldValueModel::of(ty, value).matches(other_ty, other) <==> ty == other_ty && (ty
            is PGPFingerprint || ty is Image || ty is Additional || (ty is Twitter
            && text::lowercase(value) == other) || (!(ty is Twitter) && value == other)),
{
}

/// An account that can send messages has sent those that come from it; with
/// the uniqueness of the sender, it has sent no others.
pub proof fn law_account_sends_its_messages(name: Seq<char>)
    ensures
        FieldValueModel::Email(name).sent(OriginModel::Email(name)),
        FieldValueModel::Twitter(name).sent(OriginModel::Twitter(name)),
        FieldValueModel::Matrix(name).sent(OriginModel::Matrix(name)),
{
}

/// Decoding leaves each account in its place, and changes at most the value
/// of a display name.
pub proof fn law_only_display_names_are_decoded(
    listed: Seq<(AccountType, Seq<char>)>,
    i: int,
)
    requires
        0 <= i < listed.len(),
    ensures
        accounts_decoded(listed).len() == listed.len(),
        accounts_decoded(listed)[i].0 == listed[i].0,
        listed[i].0 is DisplayName ==> accounts_decoded(listed)[i].1 == hex_text::display_text(
            listed[i].1,
        ),
        !(listed[i].0 is DisplayName) ==> accounts_decoded(listed)[i].1 == listed[i].1,
{
}

/// The accounts become as many fields, each that of the account in its place.
pub proof fn law_accounts_become_their_fields(listed: Seq<(AccountType, Seq<char>)>, i: int)
    requires
        0 <= i < listed.len(),
    ensures
        accounts_fields(listed).len() == listed.len(),
        accounts_fields(listed)[i] == FieldValueModel::of(listed[i].0, listed[i].1),
{
}

} // verus!
