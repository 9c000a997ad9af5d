//! Text as a sequence of characters: the operations that commands, names and
//! messages are read with.
use vstd::prelude::*;

verus! {

/// `String::push` appends the character to the end of the string.
pub assume_specification[ String::push ](s: &mut String, c: char)
    ensures
        final(s)@ == old(s)@.push(c),
;

/// What `str::to_lowercase` returns for a text that holds a character beyond
/// ASCII: the mapping that the Unicode tables give.
pub uninterp spec fn unicode_lowercase(text: Seq<char>) -> Seq<char>;

/// `str::to_lowercase` maps each ASCII letter of an ASCII text to its
/// lowercase letter and leaves the other characters alone. Of any other text
/// it returns what the Unicode tables give, which is only named here.
pub assume_specification[ str::to_lowercase ](s: &str) -> (lower: String)
    ensures
        vstd::utf8::is_ascii_chars(s@) ==> lower@ == ascii_lowercase(s@),
        !vstd::utf8::is_ascii_chars(s@) ==> lower@ == unicode_lowercase(s@),
;

/// The lowercase letter of an ASCII capital; any other character is itself.
pub open spec fn ascii_lower(c: char) -> char {
    if 'A' <= c <= 'Z' {
        (c as u32 + 32) as char
    } else {
        c
    }
}

/// The text with each ASCII capital turned into its lowercase letter.
pub open spec fn ascii_lowercase(text: Seq<char>) -> Seq<char> {
    text.map_values(|c: char| ascii_lower(c))
}

/// The text in lower case.
pub open spec fn lowercase(text: Seq<char>) -> Seq<char> {
    if vstd::utf8::is_ascii_chars(text) {
        ascii_lowercase(text)
    } else {
        unicode_lowercase(text)
    }
}

/// The characters with the Unicode property White_Space.
pub open spec fn is_white_space(c: char) -> bool {
    ||| '\u{9}' <= c <= '\u{d}'
    ||| c == ' '
    ||| c == '\u{85}'
    ||| c == '\u{a0}'
    ||| c == '\u{1680}'
    ||| '\u{2000}' <= c <= '\u{200a}'
    ||| c == '\u{2028}'
    ||| c == '\u{2029}'
    ||| c == '\u{202f}'
    ||| c == '\u{205f}'
    ||| c == '\u{3000}'
}

/// The text from its first character that is no white space on.
pub open spec fn trimmed_start(text: Seq<char>) -> Seq<char>
    decreases text.len(),
{
    if text.len() > 0 && is_white_space(text.first()) {
        trimmed_start(text.drop_first())
    } else {
        text
    }
}

/// The text up to its last character that is no white space.
pub open spec fn trimmed_end(text: Seq<char>) -> Seq<char>
    decreases text.len(),
{
    if text.len() > 0 && is_white_space(text.last()) {
        trimmed_end(text.drop_last())
    } else {
        text
    }
}

/// The text without the white space around it.
pub open spec fn trimmed(text: Seq<char>) -> Seq<char> {
    trimmed_end(trimmed_start(text))
}

/// The text without any occurrence of `c`.
pub open spec fn without(text: Seq<char>, c: char) -> Seq<char> {
    text.filter(|x: char| x != c)
}

/// The text with each pair of adjoining spaces, found from the left, made a
/// single space.
pub open spec fn pairs_collapsed(text: Seq<char>) -> Seq<char>
    decreases text.len(),
{
    if text.len() == 0 {
        Seq::empty()
    } else if text.len() >= 2 && text[0] == ' ' && text[1] == ' ' {
        seq![' '] + pairs_collapsed(text.skip(2))
    } else {
        seq![text[0]] + pairs_collapsed(text.skip(1))
    }
}

/// The pieces between the occurrences of `sep`: one more than `sep` occurs.
pub open spec fn split(text: Seq<char>, sep: char) -> Seq<Seq<char>>
    decreases text.len(),
{
    if text.len() == 0 {
        seq![Seq::empty()]
    } else {
        let before = split(text.drop_last(), sep);
        if text.last() == sep {
            before.push(Seq::empty())
        } else {
            before.update(before.len() - 1, before.last().push(text.last()))
        }
    }
}

/// The pieces one after the other, with `sep` between each two.
pub open spec fn joined(pieces: Seq<Seq<char>>, sep: Seq<char>) -> Seq<char>
    decreases pieces.len(),
{
    if pieces.len() == 0 {
        Seq::empty()
    } else if pieces.len() == 1 {
        pieces[0]
    } else {
        joined(pieces.drop_last(), sep) + sep + pieces.last()
    }
}

/// Whether `pattern` occurs in the text.
pub open spec fn occurs(pattern: Seq<char>, text: Seq<char>) -> bool {
    exists|at: int|
        0 <= at <= text.len() - pattern.len() && #[trigger] text.subrange(at, at + pattern.len())
            == pattern
}

/// Whether the text begins with `prefix`.
pub open spec fn begins_with(text: Seq<char>, prefix: Seq<char>) -> bool {
    prefix.len() <= text.len() && text.take(prefix.len() as int) == prefix
}

/// What each string of the list holds.
pub open spec fn texts(list: Seq<String>) -> Seq<Seq<char>> {
    list.map_values(|s: String| s@)
}

/// The characters of the text.
pub fn to_chars(text: &str) -> (chars: Vec<char>)
    ensures
        chars@ == text@,
{
    let mut chars: Vec<char> = Vec::new();
    for c in it: text.chars()
        invariant
            it.seq() == text@,
            chars@ == text@.take(it.index() as int),
    {
        chars.push(c);
    }
    chars
}

/// The string that holds the characters.
pub fn from_chars(chars: &Vec<char>) -> (text: String)
    ensures
        text@ == chars@,
{
    let mut text = String::new();
    let mut i: usize = 0;
    while i < chars.len()
        invariant
            i <= chars@.len(),
            text@ == chars@.take(i as int),
        decreases chars@.len() - i,
    {
        text.push(chars[i]);
        i += 1;
        assert(chars@.take(i as int) == chars@.take(i - 1).push(chars@[i - 1]));
    }
    assert(chars@.take(i as int) == chars@);
    text
}

/// Appends the text to the string.
pub fn push_text(to: &mut String, text: &str)
    ensures
        final(to)@ == old(to)@ + text@,
{
    let ghost before = to@;
    assert(before + text@.take(0) =~= before);
    for c in it: text.chars()
        invariant
            it.seq() == text@,
            to@ == before + text@.take(it.index() as int),
    {
        to.push(c);
        assert(before + text@.take(it.index() + 1) =~= (before + text@.take(
            it.index() as int,
        )).push(c));
    }
    assert(text@.take(text@.len() as int) =~= text@);
}

/// The first text followed by the second.
pub fn concat(first: &str, second: &str) -> (whole: String)
    ensures
        whole@ == first@ + second@,
{
    let mut whole = String::new();
    push_text(&mut whole, first);
    push_text(&mut whole, second);
    assert(whole@ =~= first@ + second@);
    whole
}

/// Whether the character is white space.
pub fn is_whitespace(c: char) -> (yes: bool)
    ensures
        yes == is_white_space(c),
{
    ('\u{9}' <= c && c <= '\u{d}') || c == ' ' || c == '\u{85}' || c == '\u{a0}' || c == '\u{1680}'
        || ('\u{2000}' <= c && c <= '\u{200a}') || c == '\u{2028}' || c == '\u{2029}' || c
        == '\u{202f}' || c == '\u{205f}' || c == '\u{3000}'
}

/// Takes the white space around the text away.
pub fn trim(text: &Vec<char>) -> (inner: Vec<char>)
    ensures
        inner@ == trimmed(text@),
{
    let mut from: usize = 0;
    assert(text@.skip(0) == text@);
    while from < text.len() && is_whitespace(text[from])
        invariant
            from <= text@.len(),
            trimmed_start(text@.skip(from as int)) == trimmed_start(text@),
        decreases text@.len() - from,
    {
        assert(text@.skip(from as int).drop_first() == text@.skip(from + 1));
        from += 1;
    }
    assert(trimmed_start(text@) == text@.skip(from as int));
    let mut to: usize = text.len();
    assert(text@.subrange(from as int, to as int) == text@.skip(from as int));
    while to > from && is_whitespace(text[to - 1])
        invariant
            from <= to <= text@.len(),
            trimmed_end(text@.subrange(from as int, to as int)) == trimmed(text@),
        decreases to,
    {
        assert(text@.subrange(from as int, to as int).drop_last() == text@.subrange(
            from as int,
            to - 1,
        ));
        to -= 1;
    }
    let mut inner: Vec<char> = Vec::new();
    let mut i: usize = from;
    while i < to
        invariant
            from <= i <= to <= text@.len(),
            inner@ == text@.subrange(from as int, i as int),
        decreases to - i,
    {
        inner.push(text[i]);
        i += 1;
        assert(text@.subrange(from as int, i as int) == text@.subrange(from as int, i - 1).push(
            text@[i - 1],
        ));
    }
    inner
}

/// Takes every occurrence of `c` out of the text.
pub fn remove_char(text: &Vec<char>, c: char) -> (rest: Vec<char>)
    ensures
        rest@ == without(text@, c),
{
    reveal(Seq::filter);
    let mut rest: Vec<char> = Vec::new();
    let mut i: usize = 0;
    while i < text.len()
        invariant
            i <= text@.len(),
            rest@ == without(text@.take(i as int), c),
        decreases text@.len() - i,
    {
        reveal(Seq::filter);
        let x = text[i];
        if x != c {
            rest.push(x);
        }
        i += 1;
        assert(text@.take(i as int).drop_last() == text@.take(i - 1));
    }
    assert(text@.take(i as int) == text@);
    rest
}

/// Makes each pair of adjoining spaces, found from the left, a single space.
pub fn collapse_pairs(text: &Vec<char>) -> (single: Vec<char>)
    ensures
        single@ == pairs_collapsed(text@),
{
    let mut single: Vec<char> = Vec::new();
    let mut i: usize = 0;
    assert(text@.skip(0) == text@);
    while i < text.len()
        invariant
            i <= text@.len(),
            single@ + pairs_collapsed(text@.skip(i as int)) == pairs_collapsed(text@),
        decreases text@.len() - i,
    {
        let ghost rest = text@.skip(i as int);
        let ghost done = single@;
        if text[i] == ' ' && text.len() - i >= 2 && text[i + 1] == ' ' {
            single.push(' ');
            assert(rest.skip(2) == text@.skip(i + 2));
            assert(done + (seq![' '] + pairs_collapsed(rest.skip(2))) == single@ + pairs_collapsed(
                rest.skip(2),
            ));
            i += 2;
        } else {
            single.push(text[i]);
            assert(rest.skip(1) == text@.skip(i + 1));
            assert(done + (seq![rest[0]] + pairs_collapsed(rest.skip(1))) == single@
                + pairs_collapsed(rest.skip(1)));
            i += 1;
        }
    }
    assert(text@.skip(i as int) == Seq::<char>::empty());
    assert(single@ + Seq::<char>::empty() == single@);
    single
}

/// Splits the text at each occurrence of `sep`.
pub fn split_at(text: &Vec<char>, sep: char) -> (pieces: Vec<Vec<char>>)
    ensures
        pieces@.map_values(|p: Vec<char>| p@) == split(text@, sep),
{
    let mut pieces: Vec<Vec<char>> = Vec::new();
    let mut piece: Vec<char> = Vec::new();
    let mut i: usize = 0;
    let ghost seen = |p: Vec<char>| p@;
    assert(split(text@.take(0), sep) == seq![Seq::<char>::empty()]);
    assert(pieces@.map_values(seen).push(piece@) == seq![Seq::<char>::empty()]);
    while i < text.len()
        invariant
            i <= text@.len(),
            seen == (|p: Vec<char>| p@),
            pieces@.map_values(seen).push(piece@) == split(text@.take(i as int), sep),
        decreases text@.len() - i,
    {
        let c = text[i];
        let ghost before = pieces@.map_values(seen).push(piece@);
        assert(text@.take(i + 1).drop_last() == text@.take(i as int));
        if c == sep {
            let mut ended: Vec<char> = Vec::new();
            std::mem::swap(&mut ended, &mut piece);
            pieces.push(ended);
            assert(pieces@.map_values(seen).push(piece@) == before.push(Seq::empty()));
        } else {
            piece.push(c);
            assert(pieces@.map_values(seen).push(piece@) == before.update(
                before.len() - 1,
                before.last().push(c),
            ));
        }
        i += 1;
    }
    assert(text@.take(i as int) == text@);
    let ghost front = pieces@.map_values(seen);
    let ghost last = piece@;
    pieces.push(piece);
    assert(pieces@.map_values(seen) == front.push(last));
    pieces
}

/// Whether two character sequences are the same.
pub fn same_chars(left: &Vec<char>, right: &Vec<char>) -> (same: bool)
    ensures
        same == (left@ == right@),
{
    if left.len() != right.len() {
        return false;
    }
    let mut i: usize = 0;
    while i < left.len()
        invariant
            i <= left@.len(),
            left@.len() == right@.len(),
            forall|j: int| 0 <= j < i ==> left@[j] == right@[j],
        decreases left@.len() - i,
    {
        if left[i] != right[i] {
            return false;
        }
        i += 1;
    }
    assert(left@ == right@);
    true
}

/// Whether two texts are the same.
pub fn same_text(left: &str, right: &str) -> (same: bool)
    ensures
        same == (left@ == right@),
{
    same_chars(&to_chars(left), &to_chars(right))
}

/// Whether `pattern` stands in the text at the place `at`.
fn stands_at(text: &Vec<char>, pattern: &Vec<char>, at: usize) -> (yes: bool)
    requires
        at + pattern@.len() <= text@.len(),
    ensures
        yes == (text@.subrange(at as int, at + pattern@.len()) == pattern@),
{
    let mut i: usize = 0;
    let total: usize = text.len();
    while i < pattern.len()
        invariant
            i <= pattern@.len(),
            at + pattern@.len() <= text@.len() == total,
            forall|j: int| 0 <= j < i ==> text@[at + j] == pattern@[j],
        decreases pattern@.len() - i,
    {
        if text[at + i] != pattern[i] {
            assert(text@.subrange(at as int, at + pattern@.len())[i as int] != pattern@[i as int]);
            return false;
        }
        i += 1;
    }
    assert(text@.subrange(at as int, at + pattern@.len()) == pattern@);
    true
}

/// Whether the text begins with `prefix`.
pub fn starts_with(text: &Vec<char>, prefix: &str) -> (yes: bool)
    ensures
        yes == begins_with(text@, prefix@),
{
    let prefix_chars = to_chars(prefix);
    if prefix_chars.len() > text.len() {
        return false;
    }
    assert(text@.take(prefix@.len() as int) == text@.subrange(0, prefix@.len() as int));
    stands_at(text, &prefix_chars, 0)
}

/// Whether `pattern` occurs in the text.
pub fn contains(text: &str, pattern: &str) -> (yes: bool)
    ensures
        yes == occurs(pattern@, text@),
{
    let text_chars = to_chars(text);
    let pattern_chars = to_chars(pattern);
    if pattern_chars.len() > text_chars.len() {
        return false;
    }
    let last: usize = text_chars.len() - pattern_chars.len();
    let mut at: usize = 0;
    while at <= last
        invariant
            text_chars@ == text@,
            pattern_chars@ == pattern@,
            at <= last + 1,
            last + pattern@.len() == text@.len(),
            forall|j: int|
                0 <= j < at ==> #[trigger] text@.subrange(j, j + pattern@.len()) != pattern@,
        decreases last + 1 - at,
    {
        if stands_at(&text_chars, &pattern_chars, at) {
            return true;
        }
        if at == last {
            return false;
        }
        at += 1;
    }
    false
}

/// Whether the text is a word: not empty and without white space.
pub open spec fn is_word(text: Seq<char>) -> bool {
    text.len() > 0 && forall|i: int| 0 <= i < text.len() ==> !is_white_space(#[trigger] text[i])
}

/// Whether each text of the list is a word.
pub open spec fn all_words(words: Seq<Seq<char>>) -> bool {
    forall|i: int| 0 <= i < words.len() ==> is_word(#[trigger] words[i])
}

/// Whether every character is white space.
pub open spec fn is_blank(text: Seq<char>) -> bool {
    forall|i: int| 0 <= i < text.len() ==> is_white_space(#[trigger] text[i])
}

proof fn lemma_trimmed_start_drops_blank(before: Seq<char>, text: Seq<char>)
    requires
        is_blank(before),
    ensures
        trimmed_start(before + text) == trimmed_start(text),
    decreases before.len(),
{
    if before.len() == 0 {
        assert(before + text =~= text);
    } else {
        assert((before + text).first() == before[0]);
        assert((before + text).drop_first() =~= before.drop_first() + text);
        lemma_trimmed_start_drops_blank(before.drop_first(), text);
    }
}

proof fn lemma_trimmed_end_drops_blank(text: Seq<char>, after: Seq<char>)
    requires
        is_blank(after),
    ensures
        trimmed_end(text + after) == trimmed_end(text),
    decreases after.len(),
{
    if after.len() == 0 {
        assert(text + after =~= text);
    } else {
        assert((text + after).last() == after.last());
        assert((text + after).drop_last() =~= text + after.drop_last());
        lemma_trimmed_end_drops_blank(text, after.drop_last());
    }
}

proof fn lemma_trimmed_start_keeps_end(text: Seq<char>, after: Seq<char>)
    ensures
        trimmed_start(text).len() > 0 ==> trimmed_start(text + after) == trimmed_start(text)
            + after,
        trimmed_start(text).len() == 0 ==> trimmed_start(text + after) == trimmed_start(after),
    decreases text.len(),
{
    if text.len() == 0 {
        assert(text + after =~= after);
    } else {
        assert((text + after).first() == text.first());
        assert((text + after).drop_first() =~= text.drop_first() + after);
        if is_white_space(text.first()) {
            lemma_trimmed_start_keeps_end(text.drop_first(), after);
        }
    }
}

/// White space around a text has no part in what is left of it after
/// trimming.
pub proof fn law_trim_drops_blank(before: Seq<char>, text: Seq<char>, after: Seq<char>)
    requires
        is_blank(before),
        is_blank(after),
    ensures
        trimmed(before + text + after) == trimmed(text),
{
    assert(before + text + after =~= before + (text + after));
    lemma_trimmed_start_drops_blank(before, text + after);
    lemma_trimmed_start_keeps_end(text, after);
    if trimmed_start(text).len() > 0 {
        lemma_trimmed_end_drops_blank(trimmed_start(text), after);
    } else {
        assert(trimmed_start(text) =~= Seq::<char>::empty());
        assert(after + Seq::<char>::empty() =~= after);
        lemma_trimmed_start_drops_blank(after, Seq::empty());
    }
}

/// A text that neither begins nor ends with white space is left alone by
/// trimming.
pub proof fn lemma_trimmed_keeps(text: Seq<char>)
    requires
        text.len() > 0,
        !is_white_space(text.first()),
        !is_white_space(text.last()),
    ensures
        trimmed(text) == text,
{
}

proof fn lemma_split_appends(text: Seq<char>, piece: Seq<char>, sep: char)
    requires
        !piece.contains(sep),
    ensures
        split(text.push(sep) + piece, sep) == split(text, sep).push(piece),
    decreases piece.len(),
{
    let whole = text.push(sep) + piece;
    if piece.len() == 0 {
        assert(whole =~= text.push(sep));
        assert(whole.drop_last() =~= text);
        assert(piece =~= Seq::<char>::empty());
    } else {
        assert(piece.contains(piece.last()));
        assert forall|c: char| piece.drop_last().contains(c) implies piece.contains(c) by {
            let i = choose|i: int| 0 <= i < piece.len() - 1 && piece.drop_last()[i] == c;
            assert(piece[i] == c);
        }
        lemma_split_appends(text, piece.drop_last(), sep);
        assert(whole.drop_last() =~= text.push(sep) + piece.drop_last());
        assert(whole.last() == piece.last());
        let before = split(text, sep).push(piece.drop_last());
        assert(before.last().push(piece.last()) =~= piece);
        assert(before.update(before.len() - 1, piece) =~= split(text, sep).push(piece));
    }
}

proof fn lemma_split_single(piece: Seq<char>, sep: char)
    requires
        !piece.contains(sep),
    ensures
        split(piece, sep) == seq![piece],
    decreases piece.len(),
{
    if piece.len() > 0 {
        assert(piece.contains(piece.last()));
        assert forall|c: char| piece.drop_last().contains(c) implies piece.contains(c) by {
            let i = choose|i: int| 0 <= i < piece.len() - 1 && piece.drop_last()[i] == c;
            assert(piece[i] == c);
        }
        lemma_split_single(piece.drop_last(), sep);
        assert(piece.drop_last().push(piece.last()) =~= piece);
        assert(seq![piece.drop_last()].update(0, piece) =~= seq![piece]);
    } else {
        assert(piece =~= Seq::<char>::empty());
    }
}

/// Splitting a text at the separator that its pieces are joined by gives the
/// pieces back, as long as none of them holds the separator.
pub proof fn law_split_undoes_join(pieces: Seq<Seq<char>>, sep: char)
    requires
        pieces.len() > 0,
        forall|i: int| 0 <= i < pieces.len() ==> !(#[trigger] pieces[i]).contains(sep),
    ensures
        split(joined(pieces, seq![sep]), sep) == pieces,
    decreases pieces.len(),
{
    if pieces.len() == 1 {
        lemma_split_single(pieces[0], sep);
        assert(seq![pieces[0]] =~= pieces);
    } else {
        let front = pieces.drop_last();
        law_split_undoes_join(front, sep);
        let line = joined(front, seq![sep]);
        lemma_split_appends(line, pieces.last(), sep);
        assert(line.push(sep) + pieces.last() =~= line + seq![sep] + pieces.last());
        assert(front.push(pieces.last()) =~= pieces);
    }
}

/// Joining the pieces of a text by the separator that it is split at gives
/// the text back.
pub proof fn law_join_undoes_split(text: Seq<char>, sep: char)
    ensures
        split(text, sep).len() >= 1,
        joined(split(text, sep), seq![sep]) == text,
    decreases text.len(),
{
    let pieces = split(text, sep);
    if text.len() == 0 {
        assert(pieces[0] =~= text);
    } else {
        let before = split(text.drop_last(), sep);
        law_join_undoes_split(text.drop_last(), sep);
        if text.last() == sep {
            assert(pieces.drop_last() =~= before);
            assert(text.drop_last() + seq![sep] + Seq::<char>::empty() =~= text);
        } else {
            assert(pieces.drop_last() =~= before.drop_last());
            assert(text =~= text.drop_last().push(text.last()));
            if pieces.len() > 1 {
                let front = joined(before.drop_last(), seq![sep]) + seq![sep];
                assert(front + before.last().push(text.last()) =~= (front + before.last()).push(
                    text.last(),
                ));
            }
        }
    }
}

/// No two spaces adjoin.
spec fn single_spaced(text: Seq<char>) -> bool {
    forall|i: int, j: int|
        0 <= i < text.len() && j == i + 1 && j < text.len() ==> !(#[trigger] text[i] == ' '
            && #[trigger] text[j] == ' ')
}

proof fn lemma_single_spaced_kept(text: Seq<char>)
    requires
        single_spaced(text),
    ensures
        pairs_collapsed(text) == text,
    decreases text.len(),
{
    if text.len() > 0 {
        let rest = text.skip(1);
        assert forall|i: int, j: int|
            0 <= i < rest.len() && j == i + 1 && j < rest.len() implies !(#[trigger] rest[i] == ' '
            && #[trigger] rest[j] == ' ') by {
            assert(rest[i] == text[i + 1] && rest[j] == text[j + 1]);
        }
        lemma_single_spaced_kept(rest);
        assert(seq![text[0]] + rest =~= text);
    } else {
        assert(text =~= Seq::<char>::empty());
    }
}

/// A line of words neither begins nor ends with white space and is spaced
/// once between the words.
proof fn lemma_line_of_words(words: Seq<Seq<char>>)
    requires
        words.len() > 0,
        all_words(words),
    ensures
        ({
            let line = joined(words, seq![' ']);
            &&& line.len() > 0
            &&& line.first() == words[0].first()
            &&& line.last() == words.last().last()
            &&& single_spaced(line)
        }),
    decreases words.len(),
{
    let line = joined(words, seq![' ']);
    let last = words.last();
    assert(is_word(last));
    assert forall|i: int| 0 <= i < last.len() implies #[trigger] last[i] != ' ' by {
        assert(!is_white_space(last[i]));
    }
    if words.len() > 1 {
        let front = words.drop_last();
        assert forall|i: int| 0 <= i < front.len() implies is_word(#[trigger] front[i]) by {
            assert(is_word(words[i]));
        }
        lemma_line_of_words(front);
        let head = joined(front, seq![' ']);
        assert(is_word(words[front.len() - 1]));
        assert(!is_white_space(head.last()));
        assert(line == head + seq![' '] + last);
        assert forall|i: int, j: int|
            0 <= i < line.len() && j == i + 1 && j < line.len() implies !(#[trigger] line[i] == ' '
            && #[trigger] line[j] == ' ') by {
            let n = head.len() as int;
            if j < n {
                assert(line[i] == head[i] && line[j] == head[j]);
            } else if j == n {
                assert(line[i] == head.last());
            } else {
                assert(line[j] == last[j - n - 1]);
            }
        }
    }
}

/// A line of words, spaced once, is left alone by trimming and by collapsing
/// pairs of spaces, and splits into its words.
pub proof fn law_line_of_words_is_split(words: Seq<Seq<char>>)
    requires
        words.len() > 0,
        all_words(words),
    ensures
        ({
            let line = joined(words, seq![' ']);
            &&& trimmed(line) == line
            &&& pairs_collapsed(line) == line
            &&& split(line, ' ') == words
        }),
{
    let line = joined(words, seq![' ']);
    lemma_line_of_words(words);
    assert(is_word(words[0]) && is_word(words.last()));
    assert(!is_white_space(words[0][0]));
    assert(!is_white_space(words.last()[words.last().len() - 1]));
    lemma_trimmed_keeps(line);
    lemma_single_spaced_kept(line);
    assert forall|i: int| 0 <= i < words.len() implies !(#[trigger] words[i]).contains(' ') by {
        assert(is_word(words[i]));
    }
    law_split_undoes_join(words, ' ');
}

proof fn lemma_collapse_appends(head: Seq<char>, word: Seq<char>)
    requires
        head.len() > 0 ==> head.last() != ' ',
        is_word(word),
    ensures
        pairs_collapsed(head + seq![' ', ' '] + word) == pairs_collapsed(head) + seq![' '] + word,
    decreases head.len(),
{
    let whole = head + seq![' ', ' '] + word;
    if head.len() == 0 {
        assert(whole.skip(2) =~= word);
        assert forall|i: int, j: int|
            0 <= i < word.len() && j == i + 1 && j < word.len() implies !(#[trigger] word[i] == ' '
            && #[trigger] word[j] == ' ') by {
            assert(!is_white_space(word[i]));
        }
        lemma_single_spaced_kept(word);
        assert(pairs_collapsed(head) =~= Seq::<char>::empty());
        assert(seq![' '] + word =~= Seq::<char>::empty() + seq![' '] + word);
    } else if head.len() >= 2 && head[0] == ' ' && head[1] == ' ' {
        assert(whole[0] == ' ' && whole[1] == ' ');
        assert(whole.skip(2) =~= head.skip(2) + seq![' ', ' '] + word);
        lemma_collapse_appends(head.skip(2), word);
        assert(seq![' '] + (pairs_collapsed(head.skip(2)) + seq![' '] + word) =~= (seq![' ']
            + pairs_collapsed(head.skip(2))) + seq![' '] + word);
    } else {
        assert(whole[0] == head[0]);
        assert(!(whole[0] == ' ' && whole[1] == ' '));
        assert(whole.skip(1) =~= head.skip(1) + seq![' ', ' '] + word);
        lemma_collapse_appends(head.skip(1), word);
        assert(seq![head[0]] + (pairs_collapsed(head.skip(1)) + seq![' '] + word) =~= (seq![head[0]]
            + pairs_collapsed(head.skip(1))) + seq![' '] + word);
    }
}

/// A line of words that is spaced twice between them collapses to the line
/// that is spaced once.
pub proof fn law_double_spacing_collapses(words: Seq<Seq<char>>)
    requires
        words.len() > 0,
        all_words(words),
    ensures
        ({
            let line = joined(words, seq![' ', ' ']);
            &&& trimmed(line) == line
            &&& pairs_collapsed(line) == joined(words, seq![' '])
        }),
    decreases words.len(),
{
    let line = joined(words, seq![' ', ' ']);
    lemma_double_line_ends(words);
    assert(is_word(words[0]) && is_word(words.last()));
    assert(!is_white_space(words[0][0]));
    assert(!is_white_space(words.last()[words.last().len() - 1]));
    lemma_trimmed_keeps(line);
    if words.len() == 1 {
        law_line_of_words_is_split(words);
    } else {
        let front = words.drop_last();
        assert forall|i: int| 0 <= i < front.len() implies is_word(#[trigger] front[i]) by {
            assert(is_word(words[i]));
        }
        law_double_spacing_collapses(front);
        lemma_double_line_ends(front);
        assert(is_word(front.last()));
        assert(!is_white_space(front.last()[front.last().len() - 1]));
        lemma_collapse_appends(joined(front, seq![' ', ' ']), words.last());
    }
}

proof fn lemma_double_line_ends(words: Seq<Seq<char>>)
    requires
        words.len() > 0,
        all_words(words),
    ensures
        ({
            let line = joined(words, seq![' ', ' ']);
            &&& line.len() > 0
            &&& line.first() == words[0].first()
            &&& line.last() == words.last().last()
        }),
    decreases words.len(),
{
    assert(is_word(words.last()));
    if words.len() > 1 {
        let front = words.drop_last();
        assert forall|i: int| 0 <= i < front.len() implies is_word(#[trigger] front[i]) by {
            assert(is_word(words[i]));
        }
        lemma_double_line_ends(front);
    }
}

/// A text without the character is left alone when it is taken out.
pub proof fn lemma_without_keeps(text: Seq<char>, c: char)
    requires
        !text.contains(c),
    ensures
        without(text, c) == text,
    decreases text.len(),
{
    reveal(Seq::filter);
    if text.len() > 0 {
        assert(text.contains(text.last()));
        assert forall|x: char| text.drop_last().contains(x) implies text.contains(x) by {
            let i = choose|i: int| 0 <= i < text.len() - 1 && text.drop_last()[i] == x;
            assert(text[i] == x);
        }
        lemma_without_keeps(text.drop_last(), c);
        assert(text.drop_last().push(text.last()) =~= text);
    } else {
        assert(without(text, c) =~= text);
    }
}

/// What is not taken out stays.
pub proof fn lemma_without_contains(text: Seq<char>, c: char, i: int)
    requires
        0 <= i < text.len(),
        text[i] != c,
    ensures
        without(text, c).contains(text[i]),
{
    text.lemma_filter_contains(|x: char| x != c, i);
}

/// A character between two texts without it is what is taken out.
pub proof fn lemma_without_drops(before: Seq<char>, c: char, after: Seq<char>)
    requires
        !before.contains(c),
        !after.contains(c),
    ensures
        without(before.push(c) + after, c) == before + after,
    decreases after.len(),
{
    reveal(Seq::filter);
    let whole = before.push(c) + after;
    if after.len() == 0 {
        assert(whole =~= before.push(c));
        assert(whole.drop_last() =~= before);
        lemma_without_keeps(before, c);
        assert(before + after =~= before);
    } else {
        assert(after.contains(after.last()));
        assert forall|x: char| after.drop_last().contains(x) implies after.contains(x) by {
            let i = choose|i: int| 0 <= i < after.len() - 1 && after.drop_last()[i] == x;
            assert(after[i] == x);
        }
        assert(whole.drop_last() =~= before.push(c) + after.drop_last());
        lemma_without_drops(before, c, after.drop_last());
        assert((before + after.drop_last()).push(after.last()) =~= before + after);
    }
}

proof fn lemma_trimmed_start_splits(text: Seq<char>) -> (before: Seq<char>)
    ensures
        is_blank(before),
        text == before + trimmed_start(text),
        trimmed_start(text).len() > 0 ==> !is_white_space(trimmed_start(text).first()),
    decreases text.len(),
{
    if text.len() > 0 && is_white_space(text.first()) {
        let rest = lemma_trimmed_start_splits(text.drop_first());
        let before = seq![text.first()] + rest;
        assert forall|i: int| 0 <= i < before.len() implies is_white_space(#[trigger] before[i]) by {
            if i > 0 {
                assert(before[i] == rest[i - 1]);
            }
        }
        assert(text =~= seq![text.first()] + text.drop_first());
        assert(seq![text.first()] + (rest + trimmed_start(text)) =~= before + trimmed_start(text));
        before
    } else {
        assert(text =~= Seq::<char>::empty() + text);
        Seq::empty()
    }
}

proof fn lemma_trimmed_end_splits(text: Seq<char>) -> (after: Seq<char>)
    ensures
        is_blank(after),
        text == trimmed_end(text) + after,
        trimmed_end(text).len() > 0 ==> {
            &&& !is_white_space(trimmed_end(text).last())
            &&& trimmed_end(text).first() == text.first()
        },
    decreases text.len(),
{
    if text.len() > 0 && is_white_space(text.last()) {
        let rest = lemma_trimmed_end_splits(text.drop_last());
        let after = rest.push(text.last());
        assert(text =~= text.drop_last().push(text.last()));
        assert((trimmed_end(text) + rest).push(text.last()) =~= trimmed_end(text) + after);
        after
    } else {
        assert(text =~= text + Seq::<char>::empty());
        Seq::empty()
    }
}

/// Trimming takes away white space around a text and nothing else, and leaves
/// none there.
pub proof fn law_trim_takes_only_blank(text: Seq<char>)
    ensures
        exists|before: Seq<char>, after: Seq<char>|
            is_blank(before) && is_blank(after) && text == #[trigger] (before + trimmed(text)
                + after),
        trimmed(text).len() > 0 ==> {
            &&& !is_white_space(trimmed(text).first())
            &&& !is_white_space(trimmed(text).last())
        },
{
    let before = lemma_trimmed_start_splits(text);
    let after = lemma_trimmed_end_splits(trimmed_start(text));
    assert(text =~= before + trimmed(text) + after);
}

/// What is left of two texts one after the other, once a character is taken
/// out, is what is left of each; of the character itself nothing is left, and
/// any other one stays.
pub proof fn law_without_goes_by_characters(one: Seq<char>, other: Seq<char>, x: char, c: char)
    ensures
        without(one + other, c) == without(one, c) + without(other, c),
        without(seq![c], c) == Seq::<char>::empty(),
        x != c ==> without(seq![x], c) == seq![x],
    decreases other.len(),
{
    reveal(Seq::filter);
    assert(seq![c].drop_last() =~= Seq::<char>::empty());
    assert(seq![x].drop_last() =~= Seq::<char>::empty());
    assert(without(Seq::empty(), c) =~= Seq::<char>::empty());
    assert(without(seq![c], c) =~= Seq::<char>::empty());
    assert(x != c ==> without(seq![x], c) =~= seq![x]);
    if other.len() == 0 {
        assert(one + other =~= one);
        assert(other =~= Seq::<char>::empty());
        assert(without(one, c) + without(other, c) =~= without(one, c));
    } else {
        law_without_goes_by_characters(one, other.drop_last(), x, c);
        let whole = one + other;
        assert(whole.drop_last() =~= one + other.drop_last());
        assert(whole.last() == other.last());
        let front = without(other.drop_last(), c);
        assert((without(one, c) + front).push(other.last()) =~= without(one, c) + front.push(
            other.last(),
        ));
    }
}

/// So many spaces.
pub open spec fn spaces(n: nat) -> Seq<char> {
    Seq::new(n, |i: int| ' ')
}

proof fn lemma_collapse_goes_by_parts(head: Seq<char>, tail: Seq<char>)
    requires
        head.len() > 0 ==> head.last() != ' ',
    ensures
        pairs_collapsed(head + tail) == pairs_collapsed(head) + pairs_collapsed(tail),
    decreases head.len(),
{
    let whole = head + tail;
    if head.len() == 0 {
        assert(whole =~= tail);
        assert(pairs_collapsed(head) + pairs_collapsed(tail) =~= pairs_collapsed(tail));
    } else if head.len() >= 2 && head[0] == ' ' && head[1] == ' ' {
        assert(head.skip(2).last() == head.last());
        lemma_collapse_goes_by_parts(head.skip(2), tail);
        assert(whole.skip(2) =~= head.skip(2) + tail);
        assert(pairs_collapsed(whole) =~= pairs_collapsed(head) + pairs_collapsed(tail));
    } else {
        if head.len() > 1 {
            assert(head.skip(1).last() == head.last());
            assert(whole[1] == head[1]);
        }
        lemma_collapse_goes_by_parts(head.skip(1), tail);
        assert(whole.skip(1) =~= head.skip(1) + tail);
        assert(whole[0] == head[0]);
        assert(pairs_collapsed(whole) =~= pairs_collapsed(head) + pairs_collapsed(tail));
    }
}

proof fn lemma_spaces_collapse(n: nat, tail: Seq<char>)
    requires
        tail.len() > 0 ==> tail[0] != ' ',
    ensures
        pairs_collapsed(spaces(n) + tail) == spaces((n + 1) / 2) + pairs_collapsed(tail),
    decreases n,
{
    let whole = spaces(n) + tail;
    if n == 0 {
        assert(whole =~= tail);
        assert(spaces(0) + pairs_collapsed(tail) =~= pairs_collapsed(tail));
    } else if n == 1 {
        assert(whole.skip(1) =~= tail);
        assert(whole[0] == ' ');
        assert(tail.len() > 0 ==> whole[1] == tail[0]);
        assert(seq![' '] =~= spaces(1));
    } else {
        let fewer = (n - 2) as nat;
        lemma_spaces_collapse(fewer, tail);
        assert(whole[0] == ' ' && whole[1] == ' ');
        assert(whole.skip(2) =~= spaces(fewer) + tail);
        assert(seq![' '] + (spaces((fewer + 1) / 2) + pairs_collapsed(tail)) =~= spaces(
            (n + 1) / 2,
        ) + pairs_collapsed(tail));
    }
}

/// Runs of spaces are halved, rounded up, wherever they stand, and a text
/// without a space is left alone.
pub proof fn law_runs_of_spaces_are_halved(head: Seq<char>, n: nat, tail: Seq<char>)
    requires
        head.len() > 0 ==> head.last() != ' ',
        tail.len() > 0 ==> tail[0] != ' ',
    ensures
        pairs_collapsed(head + spaces(n) + tail) == pairs_collapsed(head) + spaces((n + 1) / 2)
            + pairs_collapsed(tail),
        !head.contains(' ') ==> pairs_collapsed(head) == head,
{
    assert(head + spaces(n) + tail =~= head + (spaces(n) + tail));
    lemma_collapse_goes_by_parts(head, spaces(n) + tail);
    lemma_spaces_collapse(n, tail);
    assert(pairs_collapsed(head) + (spaces((n + 1) / 2) + pairs_collapsed(tail))
        =~= pairs_collapsed(head) + spaces((n + 1) / 2) + pairs_collapsed(tail));
    if !head.contains(' ') {
        lemma_single_spaced_kept(head);
    }
}

/// A list of pieces is joined by writing each behind what the ones before it
/// are joined to.
pub proof fn law_join_goes_by_pieces(pieces: Seq<Seq<char>>, piece: Seq<char>, sep: Seq<char>)
    ensures
        joined(Seq::empty(), sep) == Seq::<char>::empty(),
        joined(seq![piece], sep) == piece,
        pieces.len() > 0 ==> joined(pieces.push(piece), sep) == joined(pieces, sep) + sep + piece,
{
    assert(pieces.push(piece).drop_last() =~= pieces);
}

/// No piece holds the separator, and there is one more of them than there are
/// separators in the text.
pub proof fn law_pieces_hold_no_separator(text: Seq<char>, sep: char)
    ensures
        forall|i: int|
            0 <= i < split(text, sep).len() ==> !(#[trigger] split(text, sep)[i]).contains(sep),
        split(text, sep).len() == text.len() - without(text, sep).len() + 1,
    decreases text.len(),
{
    reveal(Seq::filter);
    if text.len() > 0 {
        law_pieces_hold_no_separator(text.drop_last(), sep);
        law_join_undoes_split(text.drop_last(), sep);
        let before = split(text.drop_last(), sep);
        let pieces = split(text, sep);
        assert forall|i: int| 0 <= i < pieces.len() implies !(#[trigger] pieces[i]).contains(
            sep,
        ) by {
            if i < before.len() - 1 {
                assert(pieces[i] == before[i]);
            } else if text.last() != sep {
                assert(pieces[i] == before[i].push(text.last()));
            } else if i == before.len() - 1 {
                assert(pieces[i] == before[i]);
            }
        }
    } else {
        assert(without(text, sep) =~= Seq::<char>::empty());
    }
}

/// A pattern occurs in exactly the texts that hold it between something
/// before and something after it.
pub proof fn law_occurrence_stands_within(pattern: Seq<char>, text: Seq<char>)
    ensures
        occurs(pattern, text) <==> exists|before: Seq<char>, after: Seq<char>|
            text == #[trigger] (before + pattern + after),
{
    if occurs(pattern, text) {
        let at = choose|at: int|
            0 <= at <= text.len() - pattern.len() && #[trigger] text.subrange(
                at,
                at + pattern.len(),
            ) == pattern;
        let before = text.take(at);
        let after = text.skip(at + pattern.len());
        assert(text =~= before + pattern + after) by {
            assert(text.subrange(at, at + pattern.len()) == pattern);
        }
    }
    if exists|before: Seq<char>, after: Seq<char>| text == #[trigger] (before + pattern + after) {
        let (before, after) = choose|before: Seq<char>, after: Seq<char>|
            text == #[trigger] (before + pattern + after);
        let at = before.len() as int;
        assert(text.subrange(at, at + pattern.len()) =~= pattern);
    }
}

/// A text begins with exactly the prefixes that something can be written
/// behind to get it.
pub proof fn law_prefix_is_what_comes_first(text: Seq<char>, prefix: Seq<char>)
    ensures
        begins_with(text, prefix) <==> exists|rest: Seq<char>| text == #[trigger] (prefix + rest),
{
    if begins_with(text, prefix) {
        assert(text =~= prefix + text.skip(prefix.len() as int)) by {
            assert(text.take(prefix.len() as int) == prefix);
        }
    }
    if exists|rest: Seq<char>| text == #[trigger] (prefix + rest) {
        let rest = choose|rest: Seq<char>| text == #[trigger] (prefix + rest);
        assert(text.take(prefix.len() as int) =~= prefix);
    }
}

} // verus!
