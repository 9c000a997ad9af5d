use registrar::hex_text::try_decode_hex;
use registrar::text;

fn chars(s: &str) -> Vec<char> {
    s.chars().collect()
}

fn string(c: &Vec<char>) -> String {
    c.iter().collect()
}

#[test]
fn white_space_is_that_of_unicode() {
    for code in 0..=0x10ffffu32 {
        if let Some(c) = char::from_u32(code) {
            assert_eq!(text::is_whitespace(c), c.is_whitespace(), "{:x}", code);
        }
    }
}

#[test]
fn trim_takes_the_white_space_around_away() {
    for s in ["", " ", "  a b ", "\u{3000}name\t\n", "x", "\u{200b}y "] {
        assert_eq!(string(&text::trim(&chars(s))), s.trim());
    }
}

#[test]
fn pairs_of_spaces_become_single_ones() {
    for s in ["", " ", "  ", "   ", "    ", "a  b", "a   b    c", "a b"] {
        assert_eq!(string(&text::collapse_pairs(&chars(s))), s.replace("  ", " "));
    }
    assert_eq!(string(&text::collapse_pairs(&chars("a   b"))), "a  b");
}

#[test]
fn characters_are_removed() {
    assert_eq!(string(&text::remove_char(&chars("--a-b_c-"), '-')), "ab_c");
    assert_eq!(string(&text::remove_char(&chars(""), '-')), "");
}

#[test]
fn split_gives_one_piece_more_than_separators() {
    for s in ["", " ", "a", "a b", " a  b ", "a b c"] {
        let pieces: Vec<String> = text::split_at(&chars(s), ' ').iter().map(string).collect();
        let expected: Vec<String> = s.split(' ').map(|p| p.to_string()).collect();
        assert_eq!(pieces, expected);
    }
}

#[test]
fn joined_words_are_split_again() {
    let words = vec!["verify", "1x", "", "email"];
    let pieces: Vec<String> =
        text::split_at(&chars(&words.join(" ")), ' ').iter().map(string).collect();
    assert_eq!(pieces, words);
}

#[test]
fn texts_are_compared_and_searched() {
    assert!(text::same_text("", ""));
    assert!(text::same_text("ab\u{e9}", "ab\u{e9}"));
    assert!(!text::same_text("ab", "abc"));
    assert!(!text::same_text("ab", "aB"));
    assert!(text::starts_with(&chars("status x"), "status"));
    assert!(text::starts_with(&chars("x"), ""));
    assert!(!text::starts_with(&chars("stat"), "status"));
    assert!(text::contains("aab", "ab"));
    assert!(text::contains("aab", ""));
    assert!(text::contains("", ""));
    assert!(!text::contains("aab", "ba"));
    assert!(!text::contains("a", "ab"));
    assert_eq!(text::concat("ab", "cd"), "abcd");
}

fn decoded(name: &str) -> String {
    let mut name = name.to_string();
    try_decode_hex(&mut name);
    name
}

#[test]
fn hex_names_are_decoded() {
    assert_eq!(decoded("0x416c696365"), "Alice");
    assert_eq!(decoded("0x416C696365"), "Alice");
    assert_eq!(decoded("0xf09f9880"), "\u{1f600}");
    assert_eq!(decoded("0xF09f9880"), "\u{1f600}");
    assert_eq!(decoded("0x"), "");
}

#[test]
fn names_that_are_no_hex_names_are_kept() {
    for name in ["Alice", "0x4", "0xzz", "0x41 ", "0xff", "0xc328", "x0x41", "", "0", "0x\u{e9}\u{e9}"] {
        assert_eq!(decoded(name), name);
    }
}

#[test]
fn written_out_names_are_read_back() {
    for name in ["Alice", "", "\u{1f600} caf\u{e9}", "0x41"] {
        let digits: String = name.bytes().map(|b| format!("{:02x}", b)).collect();
        assert_eq!(decoded(&format!("0x{}", digits)), name);
    }
}
