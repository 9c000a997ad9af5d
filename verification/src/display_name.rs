//! Display names and the check that keeps them apart.
use crate::hex_text;
use crate::identity::{ChainAddress, ContextModel, IdentityContext};
use crate::judgement::{JudgementState, StateModel};
use crate::text;
use vstd::prelude::*;

verus! {

/// A display name that is in use, and the identity that uses it.
#[derive(Debug, PartialEq, Eq)]
pub struct DisplayNameEntry {
    pub context: IdentityContext,
    pub display_name: String,
}

/// What a [`DisplayNameEntry`] holds.
pub struct NameEntryModel {
    pub context: ContextModel,
    pub display_name: Seq<char>,
}

impl View for DisplayNameEntry {
    type V = NameEntryModel;

    open spec fn view(&self) -> NameEntryModel {
        NameEntryModel { context: self.context@, display_name: self.display_name@ }
    }
}

impl Clone for DisplayNameEntry {
    fn clone(&self) -> (copy: Self)
        ensures
            copy@ == self@,
    {
        DisplayNameEntry {
            context: self.context.clone(),
            display_name: self.display_name.clone(),
        }
    }
}

/// A display name as the watcher sends it.
#[derive(Debug, PartialEq, Eq)]
pub struct DisplayNameEntryRaw {
    pub address: ChainAddress,
    pub display_name: String,
}

/// What a [`DisplayNameEntryRaw`] holds.
pub struct RawNameModel {
    pub address: Seq<char>,
    pub display_name: Seq<char>,
}

impl View for DisplayNameEntryRaw {
    type V = RawNameModel;

    open spec fn view(&self) -> RawNameModel {
        RawNameModel { address: self.address@, display_name: self.display_name@ }
    }
}

impl Clone for DisplayNameEntryRaw {
    fn clone(&self) -> (copy: Self)
        ensures
            copy@ == self@,
    {
        DisplayNameEntryRaw {
            address: self.address.clone(),
            display_name: self.display_name.clone(),
        }
    }
}

impl DisplayNameEntryRaw {
    /// Display names with emojis are represented in hexadecimal form. Decodes
    /// the display name if it can be decoded.
    pub fn try_decode_hex(&mut self)
        ensures
            final(self)@ == (RawNameModel {
                display_name: hex_text::display_text(old(self)@.display_name),
                ..old(self)@
            }),
    {
        hex_text::try_decode_hex(&mut self.display_name);
    }
}

/// How many violations are reported at most.
pub const VIOLATIONS_CAP: usize = 5;

/// The entries that are too similar, in order, but for those of the identity
/// to skip. `similar` tells of each entry whether it is too similar.
pub open spec fn similar_entries(
    current: Seq<NameEntryModel>,
    similar: Seq<bool>,
    skip: Option<ContextModel>,
) -> Seq<NameEntryModel>
    decreases current.len(),
{
    if current.len() == 0 {
        Seq::empty()
    } else {
        let before = similar_entries(current.drop_last(), similar, skip);
        if similar[current.len() - 1] && skip != Some(current.last().context) {
            before.push(current.last())
        } else {
            before
        }
    }
}

/// The violations that are reported: the first ones up to the cap.
pub open spec fn violations(
    current: Seq<NameEntryModel>,
    similar: Seq<bool>,
    skip: Option<ContextModel>,
) -> Seq<NameEntryModel> {
    let all = similar_entries(current, similar, skip);
    if all.len() > VIOLATIONS_CAP {
        all.take(VIOLATIONS_CAP as int)
    } else {
        all
    }
}

/// What each entry of a list holds.
pub open spec fn entry_models(entries: Seq<DisplayNameEntry>) -> Seq<NameEntryModel> {
    entries.map_values(|entry: DisplayNameEntry| entry@)
}

/// What an optional context holds.
pub open spec fn skipped(skip: Option<&IdentityContext>) -> Option<ContextModel> {
    match skip {
        Some(context) => Some(context@),
        None => None,
    }
}

/// The settings of the display name check. The limit on the similarity of
/// two names is applied where the similarity is computed.
#[derive(Debug, Clone, Copy, PartialEq, Eq, Structural)]
pub struct DisplayNameConfig {
    pub enabled: bool,
}

/// What the display name check comes to.
#[derive(Debug, PartialEq, Eq)]
pub enum DisplayNameVerdict {
    /// There is nothing to check.
    Unchecked,
    /// The name is too similar to these.
    Violations(Vec<DisplayNameEntry>),
    /// The name is like no other.
    Valid,
}

/// What a [`DisplayNameVerdict`] holds.
#[verifier::ext_equal]
pub enum VerdictModel {
    Unchecked,
    Violations(Seq<NameEntryModel>),
    Valid,
}

impl View for DisplayNameVerdict {
    type V = VerdictModel;

    open spec fn view(&self) -> VerdictModel {
        match self {
            DisplayNameVerdict::Unchecked => VerdictModel::Unchecked,
            DisplayNameVerdict::Violations(list) => VerdictModel::Violations(entry_models(list@)),
            DisplayNameVerdict::Valid => VerdictModel::Valid,
        }
    }
}

/// Checks display names against those in use.
#[derive(Debug, Clone, Copy, PartialEq, Eq, Structural)]
pub struct DisplayNameVerifier {
    pub config: DisplayNameConfig,
}

impl DisplayNameVerifier {
    /// The name that is to be checked for the state; `None` where the check
    /// is off or no name is claimed.
    pub open spec fn checked_name(self, state: StateModel) -> Option<Seq<char>> {
        if self.config.enabled {
            crate::judgement::first_display_name(state.fields)
        } else {
            None
        }
    }

    /// What the check comes to for the state, given the names in use and
    /// which of them are too similar. The identity itself is left out.
    pub open spec fn verdict(
        self,
        state: StateModel,
        current: Seq<NameEntryModel>,
        similar: Seq<bool>,
    ) -> VerdictModel {
        let found = violations(current, similar, Some(state.context));
        if self.checked_name(state) is None {
            VerdictModel::Unchecked
        } else if found.len() > 0 {
            VerdictModel::Violations(found)
        } else {
            VerdictModel::Valid
        }
    }

    /// A verifier with the settings.
    pub fn new(config: DisplayNameConfig) -> (verifier: Self)
        ensures
            verifier.config == config,
    {
        DisplayNameVerifier { config }
    }

    /// The entries that are too similar, up to the cap, in order. `similar`
    /// tells of each entry whether it is. The entries of the identity to skip
    /// are left out, usually those of the issuer itself, which is required
    /// when a judgement is requested again.
    pub fn check_similarities(
        &self,
        current: &Vec<DisplayNameEntry>,
        similar: &Vec<bool>,
        skip: Option<&IdentityContext>,
    ) -> (found: Vec<DisplayNameEntry>)
        requires
            similar@.len() == current@.len(),
        ensures
            entry_models(found@) == violations(entry_models(current@), similar@, skipped(skip)),
    {
        let ghost all = entry_models(current@);
        let mut found: Vec<DisplayNameEntry> = Vec::new();
        let mut i: usize = 0;
        assert(entry_models(found@) =~= similar_entries(all.take(0), similar@, skipped(skip)));
        while i < current.len()
            invariant
                i <= current@.len(),
                similar@.len() == current@.len(),
                all == entry_models(current@),
                found@.len() <= VIOLATIONS_CAP,
                entry_models(found@) == similar_entries(
                    all.take(i as int),
                    similar@,
                    skipped(skip),
                ),
            decreases current@.len() - i,
        {
            assert(all.take(i + 1).drop_last() =~= all.take(i as int));
            assert(all.take(i + 1).last() == current@[i as int]@);
            let skips = match skip {
                Some(context) => current[i].context == *context,
                None => false,
            };
            if similar[i] && !skips {
                if found.len() == VIOLATIONS_CAP {
                    proof {
                        lemma_similar_entries_prefix(all, similar@, skipped(skip), i + 1);
                        let whole = similar_entries(all, similar@, skipped(skip));
                        let taken = similar_entries(all.take(i + 1), similar@, skipped(skip));
                        assert(taken.take(VIOLATIONS_CAP as int) =~= entry_models(found@));
                        assert(whole.take(taken.len() as int).take(VIOLATIONS_CAP as int)
                            =~= whole.take(VIOLATIONS_CAP as int));
                    }
                    return found;
                }
                let ghost before = found@;
                found.push(current[i].clone());
                assert(entry_models(found@) =~= entry_models(before).push(current@[i as int]@));
            }
            i += 1;
        }
        assert(all.take(i as int) =~= all);
        found
    }

    /// The name that is to be checked for the state; `None` where the check
    /// is off or no name is claimed. Where there is one, the names in use on
    /// the chain of the state are to be looked up and compared with it.
    pub fn name_to_check<'a>(&self, state: &'a JudgementState) -> (name: Option<&'a str>)
        ensures
            match name {
                Some(n) => self.checked_name(state@) == Some(n@),
                None => self.checked_name(state@) is None,
            },
    {
        if !self.config.enabled {
            return None;
        }
        state.display_name()
    }

    /// What the check comes to for the state, given the names in use on its
    /// chain and which of them are too similar to its own.
    pub fn verify_display_name(
        &self,
        state: &JudgementState,
        current: &Vec<DisplayNameEntry>,
        similar: &Vec<bool>,
    ) -> (verdict: DisplayNameVerdict)
        requires
            similar@.len() == current@.len(),
        ensures
            verdict@ == self.verdict(state@, entry_models(current@), similar@),
            self.checked_name(state@) is Some ==> (verdict is Violations <==> exists|i: int|
                0 <= i < current@.len() && similar@[i] && (#[trigger] current@[i]).context@
                    != state.context@),
            self.checked_name(state@) is Some ==> (verdict is Valid || verdict is Violations),
            verdict matches DisplayNameVerdict::Violations(list) ==> 0 < list@.len() <= 5,
    {
        proof {
            let names = entry_models(current@);
            law_violations_are_capped_and_complete(names, similar@, Some(state@.context));
            assert forall|i: int| 0 <= i < current@.len() implies (
            #[trigger] names[i]).context == current@[i].context@ by {}
            if exists|i: int|
                0 <= i < current@.len() && similar@[i] && (#[trigger] current@[i]).context@
                    != state.context@ {
                let i = choose|i: int|
                    0 <= i < current@.len() && similar@[i] && (#[trigger] current@[i]).context@
                        != state.context@;
                assert(names[i].context != state@.context);
            }
        }
        if self.name_to_check(state).is_none() {
            return DisplayNameVerdict::Unchecked;
        }
        let found = self.check_similarities(current, similar, Some(&state.context));
        if found.len() > 0 {
            DisplayNameVerdict::Violations(found)
        } else {
            DisplayNameVerdict::Valid
        }
    }
}

/// The pieces without the white space around them, but for those of which
/// nothing is left.
pub open spec fn words_kept(pieces: Seq<Seq<char>>) -> Seq<Seq<char>>
    decreases pieces.len(),
{
    if pieces.len() == 0 {
        Seq::empty()
    } else {
        let before = words_kept(pieces.drop_last());
        let word = text::trimmed(pieces.last());
        if word.len() > 0 {
            before.push(word)
        } else {
            before
        }
    }
}

/// The words of the name: for each delimiter in turn, what it separates.
pub open spec fn name_words(name: Seq<char>, delimiters: Seq<char>) -> Seq<Seq<char>>
    decreases delimiters.len(),
{
    if delimiters.len() == 0 {
        Seq::empty()
    } else {
        name_words(name, delimiters.drop_last()) + words_kept(
            text::split(name, delimiters.last()),
        )
    }
}

/// Splits the name at each delimiter in turn and lists all the words that
/// come of it.
pub fn split_words(name: &str, delimiters: &Vec<char>) -> (words: Vec<String>)
    ensures
        text::texts(words@) == name_words(name@, delimiters@),
{
    let chars = text::to_chars(name);
    let mut words: Vec<String> = Vec::new();
    let mut d: usize = 0;
    assert(text::texts(words@) =~= name_words(name@, delimiters@.take(0)));
    while d < delimiters.len()
        invariant
            d <= delimiters@.len(),
            chars@ == name@,
            text::texts(words@) == name_words(name@, delimiters@.take(d as int)),
        decreases delimiters@.len() - d,
    {
        let pieces = text::split_at(&chars, delimiters[d]);
        let ghost all = pieces@.map_values(|p: Vec<char>| p@);
        let ghost before = text::texts(words@);
        let mut i: usize = 0;
        assert(before + words_kept(all.take(0)) =~= before);
        while i < pieces.len()
            invariant
                i <= pieces@.len(),
                all == pieces@.map_values(|p: Vec<char>| p@),
                text::texts(words@) == before + words_kept(all.take(i as int)),
            decreases pieces@.len() - i,
        {
            assert(all.take(i + 1).drop_last() =~= all.take(i as int));
            assert(all.take(i + 1).last() == pieces@[i as int]@);
            let word = text::trim(&pieces[i]);
            if word.len() > 0 {
                let ghost listed = text::texts(words@);
                words.push(text::from_chars(&word));
                assert(text::texts(words@) =~= listed.push(word@));
                assert((before + words_kept(all.take(i as int))).push(word@) =~= before
                    + words_kept(all.take(i as int)).push(word@));
            }
            i += 1;
        }
        assert(all.take(i as int) =~= all);
        assert(delimiters@.take(d + 1).drop_last() =~= delimiters@.take(d as int));
        d += 1;
    }
    assert(delimiters@.take(d as int) =~= delimiters@);
    words
}

/// A display name as it is compared with others: in lower case, as a whole
/// and word by word.
#[derive(Debug, PartialEq, Eq)]
pub struct ComparedName {
    pub whole: String,
    pub words: Vec<String>,
}

/// Readies a display name for the comparison with others. Its words are what
/// spaces, hyphens and underscores separate, for each of them in turn.
pub fn compared_name(name: &str) -> (compared: ComparedName)
    ensures
        compared.whole@ == text::lowercase(name@),
        text::texts(compared.words@) == name_words(text::lowercase(name@), seq![' ', '-', '_']),
{
    let whole = name.to_lowercase();
    let mut delimiters: Vec<char> = Vec::new();
    delimiters.push(' ');
    delimiters.push('-');
    delimiters.push('_');
    assert(delimiters@ =~= seq![' ', '-', '_']);
    let words = split_words(whole.as_str(), &delimiters);
    ComparedName { whole, words }
}

/// The similar entries of the first `n` names are the first similar entries
/// of all.
proof fn lemma_similar_entries_prefix(
    current: Seq<NameEntryModel>,
    similar: Seq<bool>,
    skip: Option<ContextModel>,
    n: int,
)
    requires
        0 <= n <= current.len(),
    ensures
        ({
            let taken = similar_entries(current.take(n), similar, skip);
            let whole = similar_entries(current, similar, skip);
            taken.len() <= whole.len() && whole.take(taken.len() as int) == taken
        }),
    decreases current.len(),
{
    let taken = similar_entries(current.take(n), similar, skip);
    let whole = similar_entries(current, similar, skip);
    if n < current.len() {
        assert(current.drop_last().take(n) =~= current.take(n));
        lemma_similar_entries_prefix(current.drop_last(), similar, skip, n);
        let before = similar_entries(current.drop_last(), similar, skip);
        assert(whole.take(taken.len() as int) =~= before.take(taken.len() as int));
    } else {
        assert(current.take(n) =~= current);
        assert(whole.take(taken.len() as int) =~= taken);
    }
}

/// Each violation is an entry in use that is too similar and does not belong
/// to the identity to skip.
pub proof fn law_violations_are_similar(
    current: Seq<NameEntryModel>,
    similar: Seq<bool>,
    skip: Option<ContextModel>,
    k: int,
)
    requires
        similar.len() == current.len(),
        0 <= k < violations(current, similar, skip).len(),
    ensures
        exists|i: int|
            0 <= i < current.len() && similar[i] && #[trigger] current[i] == violations(
                current,
                similar,
                skip,
            )[k],
        skip != Some(violations(current, similar, skip)[k].context),
{
    lemma_similar_entry_source(current, similar, skip, k);
}

proof fn lemma_similar_entry_source(
    current: Seq<NameEntryModel>,
    similar: Seq<bool>,
    skip: Option<ContextModel>,
    k: int,
)
    requires
        similar.len() >= current.len(),
        0 <= k < similar_entries(current, similar, skip).len(),
    ensures
        exists|i: int|
            0 <= i < current.len() && similar[i] && #[trigger] current[i] == similar_entries(
                current,
                similar,
                skip,
            )[k],
        skip != Some(similar_entries(current, similar, skip)[k].context),
    decreases current.len(),
{
    let before = similar_entries(current.drop_last(), similar, skip);
    if k < before.len() {
        lemma_similar_entry_source(current.drop_last(), similar, skip, k);
        let i = choose|i: int|
            0 <= i < current.len() - 1 && similar[i] && #[trigger] current.drop_last()[i]
                == before[k];
        assert(current[i] == before[k]);
    } else {
        assert(current[current.len() - 1] == current.last());
    }
}

/// No more violations are reported than the cap allows, and there is none
/// exactly when every entry in use is either different enough or belongs to
/// the identity to skip.
pub proof fn law_violations_are_capped_and_complete(
    current: Seq<NameEntryModel>,
    similar: Seq<bool>,
    skip: Option<ContextModel>,
)
    requires
        similar.len() == current.len(),
    ensures
        violations(current, similar, skip).len() <= VIOLATIONS_CAP,
        violations(current, similar, skip).len() == 0 <==> forall|i: int|
            0 <= i < current.len() ==> !similar[i] || skip == Some(
                (#[trigger] current[i]).context,
            ),
{
    lemma_no_similar_entry(current, similar, skip);
}

proof fn lemma_no_similar_entry(
    current: Seq<NameEntryModel>,
    similar: Seq<bool>,
    skip: Option<ContextModel>,
)
    requires
        similar.len() >= current.len(),
    ensures
        similar_entries(current, similar, skip).len() == 0 <==> forall|i: int|
            0 <= i < current.len() ==> !similar[i] || skip == Some(
                (#[trigger] current[i]).context,
            ),
    decreases current.len(),
{
    if current.len() > 0 {
        let front = current.drop_last();
        lemma_no_similar_entry(front, similar, skip);
        assert(current[current.len() - 1] == current.last());
        if similar_entries(current, similar, skip).len() == 0 {
            assert forall|i: int| 0 <= i < current.len() implies !similar[i] || skip == Some(
                (#[trigger] current[i]).context,
            ) by {
                if i < front.len() {
                    assert(front[i] == current[i]);
                }
            }
        }
        if forall|i: int|
            0 <= i < current.len() ==> !similar[i] || skip == Some(
                (#[trigger] current[i]).context,
            ) {
            assert forall|i: int| 0 <= i < front.len() implies !similar[i] || skip == Some(
                (#[trigger] front[i]).context,
            ) by {
                assert(front[i] == current[i]);
            }
        }
    }
}

/// A name that is like none but its own is found valid, so a judgement can be
/// requested again under the same name.
pub proof fn law_own_name_is_no_violation(
    verifier: DisplayNameVerifier,
    state: StateModel,
    current: Seq<NameEntryModel>,
    similar: Seq<bool>,
)
    requires
        similar.len() == current.len(),
        verifier.checked_name(state) is Some,
        forall|i: int|
            0 <= i < current.len() && similar[i] ==> (#[trigger] current[i]).context
                == state.context,
    ensures
        verifier.verdict(state, current, similar) is Valid,
{
    law_violations_are_capped_and_complete(current, similar, Some(state.context));
}

/// Whether the entry with the given place is too similar and belongs to
/// someone else than the identity to skip.
pub open spec fn is_taken(
    current: Seq<NameEntryModel>,
    similar: Seq<bool>,
    skip: Option<ContextModel>,
    i: int,
) -> bool {
    0 <= i < current.len() && similar[i] && skip != Some(current[i].context)
}

/// Whether the entries are those with the given places, from the first to the
/// last.
pub open spec fn are_entries_at(
    found: Seq<NameEntryModel>,
    current: Seq<NameEntryModel>,
    places: Seq<int>,
) -> bool {
    &&& found.len() == places.len()
    &&& forall|k: int|
        0 <= k < places.len() ==> 0 <= #[trigger] places[k] < current.len() && found[k]
            == current[places[k]]
    &&& forall|j: int, k: int| 0 <= j < k < places.len() ==> places[j] < places[k]
}

proof fn lemma_similar_places(
    current: Seq<NameEntryModel>,
    similar: Seq<bool>,
    skip: Option<ContextModel>,
) -> (places: Seq<int>)
    requires
        similar.len() >= current.len(),
    ensures
        are_entries_at(similar_entries(current, similar, skip), current, places),
        forall|i: int| #[trigger] is_taken(current, similar, skip, i) <==> places.contains(i),
    decreases current.len(),
{
    if current.len() == 0 {
        Seq::empty()
    } else {
        let front = current.drop_last();
        let last = current.len() - 1;
        let before = lemma_similar_places(front, similar, skip);
        let found = similar_entries(front, similar, skip);
        assert forall|k: int| 0 <= k < before.len() implies 0 <= #[trigger] before[k] < last
            && found[k] == current[before[k]] by {
            assert(front[before[k]] == current[before[k]]);
        }
        assert forall|i: int| 0 <= i < last implies is_taken(front, similar, skip, i)
            == #[trigger] is_taken(current, similar, skip, i) by {
            assert(front[i] == current[i]);
        }
        if is_taken(current, similar, skip, last) {
            let places = before.push(last);
            assert forall|i: int| #[trigger] is_taken(current, similar, skip, i)
                <==> places.contains(i) by {
                if is_taken(current, similar, skip, i) {
                    if i < last {
                        assert(is_taken(front, similar, skip, i));
                        let k = choose|k: int| 0 <= k < before.len() && before[k] == i;
                        assert(places[k] == i);
                    } else {
                        assert(places[before.len() as int] == i);
                    }
                }
                if places.contains(i) {
                    let k = choose|k: int| 0 <= k < places.len() && places[k] == i;
                    if k < before.len() {
                        assert(before[k] == i);
                        assert(before.contains(i));
                        assert(is_taken(front, similar, skip, i));
                    }
                }
            }
            places
        } else {
            assert forall|i: int| #[trigger] is_taken(current, similar, skip, i)
                <==> before.contains(i) by {
                if is_taken(current, similar, skip, i) {
                    assert(is_taken(front, similar, skip, i));
                }
                if before.contains(i) {
                    assert(is_taken(front, similar, skip, i));
                }
            }
            before
        }
    }
}

/// The violations are the first five entries that are too similar and belong
/// to someone else, in their order, or all of them where they are fewer.
pub proof fn law_violations_are_the_first_taken_names(
    current: Seq<NameEntryModel>,
    similar: Seq<bool>,
    skip: Option<ContextModel>,
)
    requires
        similar.len() == current.len(),
    ensures
        exists|places: Seq<int>|
            {
                &&& #[trigger] are_entries_at(violations(current, similar, skip), current, places)
                &&& places.len() <= 5
                &&& forall|k: int|
                    0 <= k < places.len() ==> is_taken(
                        current,
                        similar,
                        skip,
                        #[trigger] places[k],
                    )
                &&& forall|i: int| #[trigger]
                    is_taken(current, similar, skip, i) ==> places.contains(i) || (places.len()
                        == 5 && places[4] < i)
            },
{
    let all = lemma_similar_places(current, similar, skip);
    let places = if all.len() > 5 {
        all.take(5)
    } else {
        all
    };
    assert(are_entries_at(violations(current, similar, skip), current, places));
    assert forall|k: int| 0 <= k < places.len() implies is_taken(
        current,
        similar,
        skip,
        #[trigger] places[k],
    ) by {
        assert(all[k] == places[k]);
        assert(all.contains(places[k]));
    }
    assert forall|i: int| #[trigger] is_taken(current, similar, skip, i) implies places.contains(i)
        || (places.len() == 5 && places[4] < i) by {
        let k = choose|k: int| 0 <= k < all.len() && all[k] == i;
        if k < places.len() {
            assert(places[k] == i);
        } else {
            assert(all[4] < all[k]);
        }
    }
}

/// A name is found valid exactly when every name in use is either different
/// enough or the identity's own. Where any other one is too similar, there
/// are violations, the first of which is the first such name.
pub proof fn law_valid_names_are_like_no_other(
    checks: DisplayNameVerifier,
    state: StateModel,
    current: Seq<NameEntryModel>,
    similar: Seq<bool>,
)
    requires
        similar.len() == current.len(),
        checks.checked_name(state) is Some,
    ensures
        checks.verdict(state, current, similar) is Valid <==> forall|i: int|
            0 <= i < current.len() ==> !similar[i] || (#[trigger] current[i]).context
                == state.context,
        !(checks.verdict(state, current, similar) is Valid) ==> (checks.verdict(
            state,
            current,
            similar,
        ) matches VerdictModel::Violations(found) && 0 < found.len() <= 5 && exists|i: int|
            0 <= i < current.len() && similar[i] && (#[trigger] current[i]).context
                != state.context && found[0] == current[i] && forall|j: int|
                0 <= j < i ==> !similar[j] || (#[trigger] current[j]).context == state.context),
{
    let skip = Some(state.context);
    let found = violations(current, similar, skip);
    law_violations_are_capped_and_complete(current, similar, skip);
    if found.len() > 0 {
        law_violations_are_the_first_taken_names(current, similar, skip);
        let places = choose|places: Seq<int>|
            {
                &&& #[trigger] are_entries_at(found, current, places)
                &&& places.len() <= 5
                &&& forall|k: int|
                    0 <= k < places.len() ==> is_taken(
                        current,
                        similar,
                        skip,
                        #[trigger] places[k],
                    )
                &&& forall|i: int| #[trigger]
                    is_taken(current, similar, skip, i) ==> places.contains(i) || (places.len()
                        == 5 && places[4] < i)
            };
        let first = places[0];
        assert(is_taken(current, similar, skip, first));
        assert(found[0] == current[first]);
        assert forall|j: int| 0 <= j < first implies !similar[j] || (#[trigger] current[j]).context
            == state.context by {
            if is_taken(current, similar, skip, j) {
                if places.contains(j) {
                    let k = choose|k: int| 0 <= k < places.len() && places[k] == j;
                    assert(k > 0 ==> places[0] < places[k]);
                } else {
                    assert(places[0] < places[4]);
                }
            }
        }
    }
}

/// There is a name to check exactly where the check is on and a display name
/// is claimed, and it is the first one claimed. Where there is none, the
/// verdict is that nothing was checked, whatever names are in use.
pub proof fn law_claimed_name_is_checked(
    checks: DisplayNameVerifier,
    state: StateModel,
    current: Seq<NameEntryModel>,
    similar: Seq<bool>,
    i: int,
)
    requires
        0 <= i <= state.fields.len(),
        forall|j: int| 0 <= j < i ==> !((#[trigger] state.fields[j]).value is DisplayName),
        i < state.fields.len() ==> state.fields[i].value is DisplayName,
    ensures
        checks.config.enabled && i < state.fields.len() ==> {
            &&& checks.checked_name(state) matches Some(name) && state.fields[i].value
                == crate::identity::FieldValueModel::DisplayName(name)
            &&& !(checks.verdict(state, current, similar) is Unchecked)
        },
        !checks.config.enabled || i == state.fields.len() ==> {
            &&& checks.checked_name(state) is None
            &&& checks.verdict(state, current, similar) is Unchecked
        },
{
    crate::judgement::law_first_display_name_is_told(state.fields, i);
}

/// The words of more pieces are those of each, in order; a piece of blank
/// has none, and any other one is a word without the blank around it.
pub proof fn law_words_go_by_pieces(one: Seq<Seq<char>>, other: Seq<Seq<char>>, piece: Seq<char>)
    ensures
        words_kept(one + other) == words_kept(one) + words_kept(other),
        text::is_blank(piece) ==> words_kept(seq![piece]) == Seq::<Seq<char>>::empty(),
        !text::is_blank(piece) ==> words_kept(seq![piece]) == seq![text::trimmed(piece)],
    decreases other.len(),
{
    let single = seq![piece];
    assert(single.drop_last() =~= Seq::<Seq<char>>::empty());
    assert(words_kept(single.drop_last()) =~= Seq::<Seq<char>>::empty());
    text::law_trim_takes_only_blank(piece);
    let (before, after) = choose|before: Seq<char>, after: Seq<char>|
        text::is_blank(before) && text::is_blank(after) && piece == #[trigger] (before
            + text::trimmed(piece) + after);
    if text::is_blank(piece) {
        let word = text::trimmed(piece);
        if word.len() > 0 {
            assert(piece[before.len() as int] == word[0]);
        }
        assert(words_kept(single) =~= Seq::<Seq<char>>::empty());
    } else {
        if text::trimmed(piece).len() == 0 {
            assert forall|i: int| 0 <= i < piece.len() implies text::is_white_space(
                #[trigger] piece[i],
            ) by {
                if i < before.len() {
                    assert(piece[i] == before[i]);
                } else {
                    assert(piece[i] == after[i - before.len()]);
                }
            }
        }
        assert(words_kept(single) =~= seq![text::trimmed(piece)]);
    }
    if other.len() == 0 {
        assert(one + other =~= one);
        assert(words_kept(one) + words_kept(other) =~= words_kept(one));
    } else {
        law_words_go_by_pieces(one, other.drop_last(), piece);
        let whole = one + other;
        assert(whole.drop_last() =~= one + other.drop_last());
        assert(whole.last() == other.last());
        let front = words_kept(other.drop_last());
        let word = text::trimmed(other.last());
        assert((words_kept(one) + front).push(word) =~= words_kept(one) + front.push(word));
    }
}

/// The words of a name are, for each delimiter in turn, those of the pieces
/// between its occurrences.
pub proof fn law_words_go_by_delimiters(
    name: Seq<char>,
    one: Seq<char>,
    other: Seq<char>,
    delimiter: char,
)
    ensures
        name_words(name, one + other) == name_words(name, one) + name_words(name, other),
        name_words(name, seq![delimiter]) == words_kept(text::split(name, delimiter)),
    decreases other.len(),
{
    let single = seq![delimiter];
    assert(single.drop_last() =~= Seq::<char>::empty());
    assert(name_words(name, single.drop_last()) =~= Seq::<Seq<char>>::empty());
    assert(name_words(name, single) =~= words_kept(text::split(name, delimiter)));
    if other.len() == 0 {
        assert(one + other =~= one);
        assert(name_words(name, one) + name_words(name, other) =~= name_words(name, one));
    } else {
        law_words_go_by_delimiters(name, one, other.drop_last(), delimiter);
        let whole = one + other;
        assert(whole.drop_last() =~= one + other.drop_last());
        assert(name_words(name, whole) =~= name_words(name, one) + name_words(name, other));
    }
}

/// Entries are seen one by one, each in its place, with the identity and the
/// name that they hold.
pub proof fn law_entries_are_seen_in_place(entries: Seq<DisplayNameEntry>, i: int)
    requires
        0 <= i < entries.len(),
    ensures
        entry_models(entries).len() == entries.len(),
        entry_models(entries)[i].context == entries[i].context@,
        entry_models(entries)[i].display_name == entries[i].display_name@,
{
}

} // verus!
