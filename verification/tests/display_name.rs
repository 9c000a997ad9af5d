use registrar::display_name::{
    compared_name, split_words, DisplayNameConfig, DisplayNameEntry, DisplayNameEntryRaw,
    DisplayNameVerdict, DisplayNameVerifier, VIOLATIONS_CAP,
};
use registrar::identity::{ChainAddress, ChainName, IdentityContext, IdentityFieldValue};
use registrar::judgement::JudgementState;

fn context(address: &str) -> IdentityContext {
    IdentityContext::new(ChainAddress::from(address.to_string()), ChainName::Kusama)
}

fn entry(address: &str, name: &str) -> DisplayNameEntry {
    DisplayNameEntry { context: context(address), display_name: name.to_string() }
}

fn name_check(enabled: bool) -> DisplayNameVerifier {
    DisplayNameVerifier::new(DisplayNameConfig { enabled })
}

fn named(name: &str) -> JudgementState {
    JudgementState::new(
        context("self"),
        vec![IdentityFieldValue::DisplayName(name.to_string())],
    )
}

#[test]
fn raw_names_are_decoded() {
    let mut raw = DisplayNameEntryRaw {
        address: ChainAddress::from("a".to_string()),
        display_name: "0xf09f9880".to_string(),
    };
    raw.try_decode_hex();
    assert_eq!(raw.display_name, "\u{1f600}");
    assert_eq!(raw.address.as_str(), "a");
}

#[test]
fn similar_names_are_violations() {
    let current = vec![entry("a", "A"), entry("b", "B"), entry("c", "C")];
    let found = name_check(true).check_similarities(&current, &vec![true, false, true], None);
    assert_eq!(found, vec![entry("a", "A"), entry("c", "C")]);
    let none = name_check(true).check_similarities(&vec![], &vec![], None);
    assert_eq!(none, vec![]);
}

#[test]
fn the_issuer_is_skipped() {
    let current = vec![entry("a", "A"), entry("self", "A"), entry("c", "C")];
    let similar = vec![true, true, true];
    let found = name_check(true).check_similarities(&current, &similar, Some(&context("self")));
    assert_eq!(found, vec![entry("a", "A"), entry("c", "C")]);
    let found = name_check(true).check_similarities(&current, &similar, None);
    assert_eq!(found.len(), 3);
}

#[test]
fn violations_are_capped() {
    assert_eq!(VIOLATIONS_CAP, 5);
    let current: Vec<DisplayNameEntry> =
        (0..8).map(|i| entry(&format!("{}", i), &format!("name {}", i))).collect();
    let found = name_check(true).check_similarities(&current, &vec![true; 8], Some(&context("1")));
    let expected: Vec<DisplayNameEntry> =
        [0, 2, 3, 4, 5].iter().map(|i| current[*i as usize].clone()).collect();
    assert_eq!(found, expected);
}

#[test]
fn names_are_checked_where_the_check_is_on() {
    assert_eq!(name_check(true).name_to_check(&named("Alice")), Some("Alice"));
    assert_eq!(name_check(false).name_to_check(&named("Alice")), None);
    let nameless = JudgementState::new(context("self"), vec![]);
    assert_eq!(name_check(true).name_to_check(&nameless), None);
}

#[test]
fn the_check_comes_to_a_verdict() {
    let current = vec![entry("a", "Alice"), entry("self", "Alice")];
    let state = named("Alice");
    assert_eq!(
        name_check(true).verify_display_name(&state, &current, &vec![true, true]),
        DisplayNameVerdict::Violations(vec![entry("a", "Alice")])
    );
    assert_eq!(
        name_check(true).verify_display_name(&state, &current, &vec![false, true]),
        DisplayNameVerdict::Valid
    );
    assert_eq!(
        name_check(false).verify_display_name(&state, &current, &vec![true, true]),
        DisplayNameVerdict::Unchecked
    );
}

#[test]
fn names_are_split_at_each_delimiter_in_turn() {
    assert_eq!(
        split_words("dave-the grey_man", &vec![' ', '-', '_']),
        vec!["dave-the", "grey_man", "dave", "the grey_man", "dave-the grey", "man"]
    );
    assert_eq!(split_words(" - ", &vec![' ', '-']), vec!["-"]);
    assert_eq!(split_words("", &vec![' ', '-', '_']), Vec::<String>::new());
    assert_eq!(split_words("a  b", &vec![' ']), vec!["a", "b"]);
    assert_eq!(split_words("a b", &vec![]), Vec::<String>::new());
}

#[test]
fn names_are_compared_in_lower_case() {
    let compared = compared_name("Dave \u{c9}ve");
    assert_eq!(compared.whole, "dave \u{e9}ve");
    assert_eq!(
        compared.words,
        vec!["dave", "\u{e9}ve", "dave \u{e9}ve", "dave \u{e9}ve"]
    );
}
