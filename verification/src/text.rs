//! Character-level text handling: conversion between strings and character
//! vectors, ASCII case folding, white space, splitting, and unsigned decimal
//! numbers, each with its meaning stated over `Seq<char>`.

use vstd::prelude::*;

verus! {

/// The characters of a string slice, in order.
pub fn chars_of(s: &str) -> (v: Vec<char>)
    ensures
        v@ == s@,
{
    let mut v: Vec<char> = Vec::new();
    for c in it: s.chars()
        invariant
            v@ == it.seq().take(it.index() as int),
            it.seq() == s@,
    {
        v.push(c);
    }
    v
}

/// `String::push` of the standard library: the string afterwards is the
/// string before with the one character `c` added at its end.
#[verifier::external_body]
fn push_char(s: &mut String, c: char)
    ensures
        final(s)@ == old(s)@.push(c),
{
    s.push(c)
}

/// The string made of the given characters, in order.
pub fn string_of(v: &Vec<char>) -> (s: String)
    ensures
        s@ == v@,
{
    let mut s = String::new();
    let mut i: usize = 0;
    while i < v.len()
        invariant
            i <= v.len(),
            s@ == v@.take(i as int),
        decreases v.len() - i,
    {
        push_char(&mut s, v[i]);
        i = i + 1;
    }
    s
}

/// Whether two character vectors hold the same text.
pub fn same_chars(a: &Vec<char>, b: &Vec<char>) -> (r: bool)
    ensures
        r == (a@ == b@),
{
    if a.len() != b.len() {
        return false;
    }
    let mut i: usize = 0;
    while i < a.len()
        invariant
            i <= a.len(),
            a.len() == b.len(),
            a@.take(i as int) == b@.take(i as int),
        decreases a.len() - i,
    {
        if a[i] != b[i] {
            return false;
        }
        assert(a@.take(i + 1) == a@.take(i as int).push(a@[i as int]));
        assert(b@.take(i + 1) == b@.take(i as int).push(b@[i as int]));
        i = i + 1;
    }
    assert(a@.take(a.len() as int) == a@);
    assert(b@.take(b.len() as int) == b@);
    true
}

/// Adds the characters of `other` at the end of `v`.
pub fn append_chars(v: &mut Vec<char>, other: &Vec<char>)
    ensures
        final(v)@ == old(v)@ + other@,
{
    let mut i: usize = 0;
    while i < other.len()
        invariant
            i <= other.len(),
            v@ == old(v)@ + other@.take(i as int),
        decreases other.len() - i,
    {
        v.push(other[i]);
        assert(other@.take(i + 1) == other@.take(i as int).push(other@[i as int]));
        i = i + 1;
    }
    assert(other@.take(other.len() as int) == other@);
}

/// Adds the characters of the string slice `s` at the end of `v`.
pub fn append_str(v: &mut Vec<char>, s: &str)
    ensures
        final(v)@ == old(v)@ + s@,
{
    let other = chars_of(s);
    append_chars(v, &other);
}

/// The characters of `v` from index `from` up to, not including, `to`.
pub fn slice_of(v: &Vec<char>, from: usize, to: usize) -> (r: Vec<char>)
    requires
        from <= to <= v.len(),
    ensures
        r@ == v@.subrange(from as int, to as int),
{
    let mut r: Vec<char> = Vec::new();
    let mut i: usize = from;
    while i < to
        invariant
            from <= i <= to <= v.len(),
            r@ == v@.subrange(from as int, i as int),
        decreases to - i,
    {
        r.push(v[i]);
        assert(v@.subrange(from as int, i + 1) == v@.subrange(from as int, i as int).push(
            v@[i as int],
        ));
        i = i + 1;
    }
    r
}

/// The texts that a sequence of character vectors holds.
pub open spec fn char_views(v: Seq<Vec<char>>) -> Seq<Seq<char>> {
    Seq::new(v.len(), |i: int| v[i]@)
}

/// The texts that a sequence of strings holds.
pub open spec fn string_views(v: Seq<String>) -> Seq<Seq<char>> {
    Seq::new(v.len(), |i: int| v[i]@)
}

/// The strings made of the given texts, in order.
pub fn strings_of(v: &Vec<Vec<char>>) -> (r: Vec<String>)
    ensures
        string_views(r@) == char_views(v@),
{
    let mut r: Vec<String> = Vec::new();
    let mut i: usize = 0;
    while i < v.len()
        invariant
            i <= v.len(),
            string_views(r@) == char_views(v@.take(i as int)),
        decreases v.len() - i,
    {
        let ghost before = string_views(r@);
        let item = string_of(&v[i]);
        r.push(item);
        assert(string_views(r@) == before.push(v@[i as int]@));
        assert(char_views(v@.take(i + 1)) == char_views(v@.take(i as int)).push(v@[i as int]@));
        i = i + 1;
    }
    assert(v@.take(v.len() as int) == v@);
    r
}

/// The lower-case form of an ASCII capital letter; any other character is
/// left as it is.
pub open spec fn lower_char(c: char) -> char {
    if 'A' <= c && c <= 'Z' {
        ((c as u8) + 32) as char
    } else {
        c
    }
}

/// A text with each ASCII capital letter replaced by its lower-case form.
pub open spec fn lowered(s: Seq<char>) -> Seq<char> {
    Seq::new(s.len(), |i: int| lower_char(s[i]))
}

/// Folds one character to lower case.
pub fn to_lower_char(c: char) -> (r: char)
    ensures
        r == lower_char(c),
{
    if 'A' <= c && c <= 'Z' {
        ((c as u8) + 32) as char
    } else {
        c
    }
}

/// Folds a text to lower case.
pub fn to_lower(v: &Vec<char>) -> (r: Vec<char>)
    ensures
        r@ == lowered(v@),
{
    let mut r: Vec<char> = Vec::new();
    let mut i: usize = 0;
    while i < v.len()
        invariant
            i <= v.len(),
            r@ == lowered(v@.take(i as int)),
        decreases v.len() - i,
    {
        r.push(to_lower_char(v[i]));
        assert(lowered(v@.take(i + 1)) == lowered(v@.take(i as int)).push(lower_char(v@[i as int])));
        i = i + 1;
    }
    assert(v@.take(v.len() as int) == v@);
    r
}

/// Whether `token`, folded to lower case, reads `word`.
pub fn is_word(token: &Vec<char>, word: &str) -> (r: bool)
    ensures
        r == (lowered(token@) == word@),
{
    let folded = to_lower(token);
    let w = chars_of(word);
    same_chars(&folded, &w)
}

/// The characters that count as white space: those with the Unicode
/// property White_Space.
pub open spec fn white_space(c: char) -> bool {
    let n = c as u32;
    (0x09 <= n && n <= 0x0D) || n == 0x20 || n == 0x85 || n == 0xA0 || n == 0x1680 || (0x2000 <= n
        && n <= 0x200A) || n == 0x2028 || n == 0x2029 || n == 0x202F || n == 0x205F || n == 0x3000
}

/// Whether `c` is a white-space character.
pub fn is_white_space(c: char) -> (r: bool)
    ensures
        r == white_space(c),
{
    let n: u32 = c as u32;
    (0x09 <= n && n <= 0x0D) || n == 0x20 || n == 0x85 || n == 0xA0 || n == 0x1680 || (0x2000 <= n
        && n <= 0x200A) || n == 0x2028 || n == 0x2029 || n == 0x202F || n == 0x205F || n == 0x3000
}

/// A text without its leading white space.
pub open spec fn trim_start(s: Seq<char>) -> Seq<char>
    decreases s.len(),
{
    if s.len() > 0 && white_space(s[0]) {
        trim_start(s.drop_first())
    } else {
        s
    }
}

/// A text without its trailing white space.
pub open spec fn trim_end(s: Seq<char>) -> Seq<char>
    decreases s.len(),
{
    if s.len() > 0 && white_space(s.last()) {
        trim_end(s.drop_last())
    } else {
        s
    }
}

/// A text without its leading and trailing white space.
pub open spec fn trimmed(s: Seq<char>) -> Seq<char> {
    trim_end(trim_start(s))
}

/// Removes leading and trailing white space.
pub fn trim(v: &Vec<char>) -> (r: Vec<char>)
    ensures
        r@ == trimmed(v@),
{
    let mut a: usize = 0;
    assert(v@.skip(0) == v@);
    while a < v.len() && is_white_space(v[a])
        invariant
            a <= v.len(),
            trim_start(v@) == trim_start(v@.skip(a as int)),
        decreases v.len() - a,
    {
        assert(v@.skip(a as int).drop_first() == v@.skip(a + 1));
        a = a + 1;
    }
    let ghost t = v@.skip(a as int);
    assert(trim_start(v@) == t);
    let mut b: usize = v.len();
    assert(t.take(v.len() - a) == t);
    while b > a && is_white_space(v[b - 1])
        invariant
            a <= b <= v.len(),
            t == v@.skip(a as int),
            trim_end(t) == trim_end(t.take(b - a)),
        decreases b,
    {
        assert(t.take(b - a).drop_last() == t.take(b - a - 1));
        b = b - 1;
    }
    assert(t.take(b - a) == v@.subrange(a as int, b as int));
    slice_of(v, a, b)
}

/// The words of a text read from its start, where `current` holds the
/// characters of the word that is being read.
pub open spec fn words_from(s: Seq<char>, current: Seq<char>) -> Seq<Seq<char>>
    decreases s.len(),
{
    if s.len() == 0 {
        if current.len() == 0 {
            seq![]
        } else {
            seq![current]
        }
    } else if white_space(s[0]) {
        if current.len() == 0 {
            words_from(s.drop_first(), seq![])
        } else {
            seq![current] + words_from(s.drop_first(), seq![])
        }
    } else {
        words_from(s.drop_first(), current.push(s[0]))
    }
}

/// The maximal runs of characters that are not white space, in order.
pub open spec fn words(s: Seq<char>) -> Seq<Seq<char>> {
    words_from(s, seq![])
}

/// Splits a text at white space into its words.
pub fn split_words(v: &Vec<char>) -> (r: Vec<Vec<char>>)
    ensures
        char_views(r@) == words(v@),
{
    let mut r: Vec<Vec<char>> = Vec::new();
    let mut current: Vec<char> = Vec::new();
    let mut i: usize = 0;
    assert(v@.skip(0) == v@);
    assert(char_views(r@) == Seq::<Seq<char>>::empty());
    while i < v.len()
        invariant
            i <= v.len(),
            char_views(r@) + words_from(v@.skip(i as int), current@) == words(v@),
        decreases v.len() - i,
    {
        let c = v[i];
        assert(v@.skip(i as int).drop_first() == v@.skip(i + 1));
        assert(v@.skip(i as int)[0] == c);
        let ghost rest = words_from(v@.skip(i as int), current@);
        if is_white_space(c) {
            if current.len() > 0 {
                let ghost before = char_views(r@);
                let ghost word = current@;
                assert(rest == seq![word] + words_from(v@.skip(i + 1), seq![]));
                r.push(current);
                assert(char_views(r@) == before.push(word));
                assert(before.push(word) + words_from(v@.skip(i + 1), seq![]) == before + (seq![
                    word,
                ] + words_from(v@.skip(i + 1), seq![])));
                current = Vec::new();
                assert(current@ == Seq::<char>::empty());
            } else {
                assert(current@ == Seq::<char>::empty());
                assert(rest == words_from(v@.skip(i + 1), seq![]));
            }
        } else {
            assert(rest == words_from(v@.skip(i + 1), current@.push(c)));
            current.push(c);
        }
        i = i + 1;
    }
    if current.len() > 0 {
        let ghost before = char_views(r@);
        r.push(current);
        assert(char_views(r@) == before.push(current@));
        assert(before.push(current@) == before + seq![current@]);
    } else {
        assert(char_views(r@) + Seq::<Seq<char>>::empty() == char_views(r@));
    }
    r
}

/// Whether a text holds a character, and none that is white space.
pub open spec fn solid(word: Seq<char>) -> bool {
    word.len() > 0 && forall|j: int| 0 <= j < word.len() ==> !white_space(#[trigger] word[j])
}

/// Every word that is read from a text, after a word begun without white
/// space, holds a character, and none that is white space.
pub proof fn lemma_words_from(s: Seq<char>, current: Seq<char>)
    requires
        forall|j: int| 0 <= j < current.len() ==> !white_space(#[trigger] current[j]),
    ensures
        forall|i: int|
            0 <= i < words_from(s, current).len() ==> solid(#[trigger] words_from(s, current)[i]),
    decreases s.len(),
{
    let all = words_from(s, current);
    if s.len() == 0 {
        if current.len() > 0 {
            assert(all == seq![current]);
            assert(solid(current));
            assert forall|i: int| 0 <= i < all.len() implies solid(#[trigger] all[i]) by {
                assert(all[i] == current);
            }
        }
    } else if white_space(s[0]) {
        let rest = words_from(s.drop_first(), seq![]);
        lemma_words_from(s.drop_first(), seq![]);
        if current.len() > 0 {
            assert(all == seq![current] + rest);
            assert(solid(current));
            assert forall|i: int| 0 <= i < all.len() implies solid(#[trigger] all[i]) by {
                if i > 0 {
                    assert(all[i] == rest[i - 1]);
                } else {
                    assert(all[i] == current);
                }
            }
        } else {
            assert(all == rest);
        }
    } else {
        let longer = current.push(s[0]);
        assert forall|j: int| 0 <= j < longer.len() implies !white_space(#[trigger] longer[j]) by {
            if j < current.len() {
                assert(longer[j] == current[j]);
            }
        }
        lemma_words_from(s.drop_first(), longer);
        assert(all == words_from(s.drop_first(), longer));
    }
}

/// Every word of a text holds a character, and none that is white space.
pub proof fn law_words_are_solid(s: Seq<char>)
    ensures
        forall|i: int| 0 <= i < words(s).len() ==> solid(#[trigger] words(s)[i]),
{
    lemma_words_from(s, seq![]);
}

/// The pieces of a text between the occurrences of `sep`, where `current`
/// holds the characters of the piece that is being read.
pub open spec fn pieces_from(s: Seq<char>, sep: char, current: Seq<char>) -> Seq<Seq<char>>
    decreases s.len(),
{
    if s.len() == 0 {
        seq![current]
    } else if s[0] == sep {
        seq![current] + pieces_from(s.drop_first(), sep, seq![])
    } else {
        pieces_from(s.drop_first(), sep, current.push(s[0]))
    }
}

/// The pieces of a text between the occurrences of `sep`: one more than
/// there are occurrences, empty pieces included.
pub open spec fn pieces(s: Seq<char>, sep: char) -> Seq<Seq<char>> {
    pieces_from(s, sep, seq![])
}

/// No piece that is read from a text, after a piece begun without `sep`,
/// holds `sep`.
pub proof fn lemma_pieces_from(s: Seq<char>, sep: char, current: Seq<char>)
    requires
        !current.contains(sep),
    ensures
        pieces_from(s, sep, current).len() > 0,
        forall|i: int|
            0 <= i < pieces_from(s, sep, current).len() ==> !(#[trigger] pieces_from(
                s,
                sep,
                current,
            )[i]).contains(sep),
    decreases s.len(),
{
    if s.len() == 0 {
    } else if s[0] == sep {
        let rest = pieces_from(s.drop_first(), sep, seq![]);
        lemma_pieces_from(s.drop_first(), sep, seq![]);
        assert forall|i: int| 0 <= i < pieces_from(s, sep, current).len() implies !(
        #[trigger] pieces_from(s, sep, current)[i]).contains(sep) by {
            if i > 0 {
                assert(pieces_from(s, sep, current)[i] == rest[i - 1]);
            }
        }
    } else {
        let longer = current.push(s[0]);
        assert(!longer.contains(sep)) by {
            if longer.contains(sep) {
                let j = choose|j: int| 0 <= j < longer.len() && longer[j] == sep;
                if j < current.len() {
                    assert(current[j] == sep);
                    assert(current.contains(sep));
                }
            }
        }
        lemma_pieces_from(s.drop_first(), sep, longer);
    }
}

/// A text has one piece at least, and no piece holds `sep`.
pub proof fn law_pieces_hold_no_separator(s: Seq<char>, sep: char)
    ensures
        pieces(s, sep).len() > 0,
        forall|i: int| 0 <= i < pieces(s, sep).len() ==> !(#[trigger] pieces(s, sep)[i]).contains(sep),
{
    lemma_pieces_from(s, sep, seq![]);
}

/// Splits a text at each occurrence of `sep`.
pub fn split_at_each(v: &Vec<char>, sep: char) -> (r: Vec<Vec<char>>)
    ensures
        char_views(r@) == pieces(v@, sep),
{
    let mut r: Vec<Vec<char>> = Vec::new();
    let mut current: Vec<char> = Vec::new();
    let mut i: usize = 0;
    assert(v@.skip(0) == v@);
    assert(char_views(r@) == Seq::<Seq<char>>::empty());
    while i < v.len()
        invariant
            i <= v.len(),
            char_views(r@) + pieces_from(v@.skip(i as int), sep, current@) == pieces(v@, sep),
        decreases v.len() - i,
    {
        let c = v[i];
        assert(v@.skip(i as int).drop_first() == v@.skip(i + 1));
        assert(v@.skip(i as int)[0] == c);
        if c == sep {
            let ghost before = char_views(r@);
            r.push(current);
            assert(char_views(r@) == before.push(current@));
            assert(before.push(current@) + pieces_from(v@.skip(i + 1), sep, seq![]) == before + (
            seq![current@] + pieces_from(v@.skip(i + 1), sep, seq![])));
            current = Vec::new();
        } else {
            current.push(c);
        }
        i = i + 1;
    }
    let ghost before = char_views(r@);
    r.push(current);
    assert(char_views(r@) == before.push(current@));
    assert(before.push(current@) == before + seq![current@]);
    r
}

/// A text with every occurrence of `c` taken out.
pub open spec fn without(s: Seq<char>, c: char) -> Seq<char>
    decreases s.len(),
{
    if s.len() == 0 {
        s
    } else if s.last() == c {
        without(s.drop_last(), c)
    } else {
        without(s.drop_last(), c).push(s.last())
    }
}

/// Removes every occurrence of `c`.
pub fn remove_char(v: &Vec<char>, c: char) -> (r: Vec<char>)
    ensures
        r@ == without(v@, c),
{
    let mut r: Vec<char> = Vec::new();
    let mut i: usize = 0;
    while i < v.len()
        invariant
            i <= v.len(),
            r@ == without(v@.take(i as int), c),
        decreases v.len() - i,
    {
        assert(v@.take(i + 1).drop_last() == v@.take(i as int));
        if v[i] != c {
            r.push(v[i]);
        }
        i = i + 1;
    }
    assert(v@.take(v.len() as int) == v@);
    r
}

/// Taking out a character that does not occur changes nothing.
pub proof fn lemma_without_absent(s: Seq<char>, c: char)
    requires
        !s.contains(c),
    ensures
        without(s, c) == s,
    decreases s.len(),
{
    if s.len() > 0 {
        assert(s.last() != c) by {
            assert(s[s.len() - 1] == s.last());
        }
        assert forall|j: int| 0 <= j < s.drop_last().len() implies s.drop_last()[j] != c by {
            assert(s.drop_last()[j] == s[j]);
        }
        assert(!s.drop_last().contains(c));
        lemma_without_absent(s.drop_last(), c);
        assert(s.drop_last().push(s.last()) == s);
    }
}

/// What is left after taking out a character does not hold it.
pub proof fn lemma_without_holds_none(s: Seq<char>, c: char)
    ensures
        !without(s, c).contains(c),
    decreases s.len(),
{
    if s.len() > 0 {
        lemma_without_holds_none(s.drop_last(), c);
        let w = without(s.drop_last(), c);
        if s.last() != c {
            assert forall|j: int| 0 <= j < w.push(s.last()).len() implies w.push(s.last())[j]
                != c by {
                if j < w.len() {
                    assert(w.push(s.last())[j] == w[j]);
                    assert(w.contains(w[j]));
                }
            }
        }
    }
}

/// The index of the first occurrence of `c` in `s`, or the length of `s`
/// if there is none.
pub open spec fn first_index(s: Seq<char>, c: char) -> int
    decreases s.len(),
{
    if s.len() == 0 || s[0] == c {
        0
    } else {
        1 + first_index(s.drop_first(), c)
    }
}

/// `first_index` is within the text or its length, points at `c` where it
/// is within, and passes over no `c`.
pub proof fn lemma_first_index(s: Seq<char>, c: char)
    ensures
        0 <= first_index(s, c) <= s.len(),
        first_index(s, c) < s.len() ==> s[first_index(s, c)] == c,
        forall|j: int| 0 <= j < first_index(s, c) ==> s[j] != c,
        first_index(s, c) < s.len() <==> s.contains(c),
    decreases s.len(),
{
    if s.len() == 0 || s[0] == c {
    } else {
        let t = s.drop_first();
        lemma_first_index(t, c);
        assert forall|j: int| 0 <= j < first_index(s, c) implies s[j] != c by {
            if j > 0 {
                assert(s[j] == t[j - 1]);
            }
        }
        if first_index(s, c) < s.len() {
            assert(s[first_index(s, c)] == t[first_index(t, c)]);
        }
        if s.contains(c) {
            let k = choose|k: int| 0 <= k < s.len() && s[k] == c;
            assert(t[k - 1] == c);
        }
    }
}

/// The index of the first occurrence of `c`, if there is one.
pub fn find_char(v: &Vec<char>, c: char) -> (r: Option<usize>)
    ensures
        r is None <==> first_index(v@, c) == v.len(),
        r is None <==> !v@.contains(c),
        r matches Some(i) ==> i == first_index(v@, c) && i < v.len() && v@[i as int] == c,
{
    proof {
        lemma_first_index(v@, c);
    }
    let mut i: usize = 0;
    while i < v.len()
        invariant
            i <= v.len(),
            i <= first_index(v@, c) <= v.len(),
        decreases v.len() - i,
    {
        proof {
            lemma_first_index(v@, c);
        }
        if v[i] == c {
            return Some(i);
        }
        i = i + 1;
    }
    None
}

/// Whether `s` begins with `prefix`.
pub open spec fn has_prefix(s: Seq<char>, prefix: Seq<char>) -> bool {
    prefix.len() <= s.len() && s.take(prefix.len() as int) == prefix
}

/// Whether the characters of `v` from index `from` on begin with `prefix`.
pub fn starts_with_at(v: &Vec<char>, from: usize, prefix: &Vec<char>) -> (r: bool)
    requires
        from <= v.len(),
    ensures
        r == has_prefix(v@.skip(from as int), prefix@),
{
    if prefix.len() > v.len() - from {
        return false;
    }
    let ghost s = v@.skip(from as int);
    let mut i: usize = 0;
    while i < prefix.len()
        invariant
            i <= prefix.len(),
            from + prefix.len() <= v.len(),
            s == v@.skip(from as int),
            s.take(i as int) == prefix@.take(i as int),
        decreases prefix.len() - i,
    {
        if v[from + i] != prefix[i] {
            assert(s.take(prefix.len() as int)[i as int] != prefix@[i as int]);
            return false;
        }
        assert(s.take(i + 1) == s.take(i as int).push(s[i as int]));
        assert(prefix@.take(i + 1) == prefix@.take(i as int).push(prefix@[i as int]));
        i = i + 1;
    }
    assert(prefix@.take(prefix.len() as int) == prefix@);
    true
}

/// Whether `c` is one of the ten decimal digits.
pub open spec fn is_digit(c: char) -> bool {
    '0' <= c && c <= '9'
}

/// The number that a decimal digit stands for.
pub open spec fn digit_value(c: char) -> nat {
    (c as u32 - '0' as u32) as nat
}

/// Whether every character of `s` is a decimal digit.
pub open spec fn all_digits(s: Seq<char>) -> bool {
    forall|i: int| 0 <= i < s.len() ==> is_digit(#[trigger] s[i])
}

/// The number that a text of decimal digits denotes; the empty text denotes 0.
pub open spec fn digits_value(s: Seq<char>) -> nat
    decreases s.len(),
{
    if s.len() == 0 {
        0
    } else {
        digits_value(s.drop_last()) * 10 + digit_value(s.last())
    }
}

/// The digits of an unsigned number: the text itself, or what follows its
/// leading `+`.
pub open spec fn unsigned_digits(s: Seq<char>) -> Seq<char> {
    if s.len() > 0 && s[0] == '+' {
        s.drop_first()
    } else {
        s
    }
}

/// Whether `s` is written as an unsigned decimal number: an optional `+`
/// and then one or more digits.
pub open spec fn is_unsigned(s: Seq<char>) -> bool {
    unsigned_digits(s).len() > 0 && all_digits(unsigned_digits(s))
}

/// The number that an unsigned decimal text denotes.
pub open spec fn unsigned_value(s: Seq<char>) -> nat {
    digits_value(unsigned_digits(s))
}

/// The value of a decimal digit, or `None` for any other character.
pub fn digit_of(c: char) -> (r: Option<u8>)
    ensures
        r is Some <==> is_digit(c),
        r matches Some(d) ==> d == digit_value(c) && d < 10,
{
    if '0' <= c && c <= '9' {
        Some((c as u32 - '0' as u32) as u8)
    } else {
        None
    }
}

/// The digit that stands for a number below ten.
pub fn digit_char(d: u8) -> (c: char)
    requires
        d < 10,
    ensures
        is_digit(c),
        digit_value(c) == d,
{
    (d + 48) as char
}

/// A prefix of a digit text denotes no more than the whole text.
pub proof fn lemma_digits_prefix(s: Seq<char>, i: int)
    requires
        0 <= i <= s.len(),
    ensures
        digits_value(s.take(i)) <= digits_value(s),
    decreases s.len(),
{
    if i == s.len() {
        assert(s.take(i) == s);
    } else {
        assert(s.drop_last().take(i) == s.take(i));
        lemma_digits_prefix(s.drop_last(), i);
        assert(digits_value(s.drop_last()) * 10 >= digits_value(s.drop_last())) by (nonlinear_arith);
    }
}

/// Reads the characters of `v` from `from` up to `to` as decimal digits.
/// The empty range reads as 0.
pub fn parse_digits(v: &Vec<char>, from: usize, to: usize) -> (r: Option<u64>)
    requires
        from <= to <= v.len(),
    ensures
        r is Some <==> all_digits(v@.subrange(from as int, to as int)) && digits_value(
            v@.subrange(from as int, to as int),
        ) <= u64::MAX,
        r matches Some(n) ==> n == digits_value(v@.subrange(from as int, to as int)),
{
    let ghost s = v@.subrange(from as int, to as int);
    let mut acc: u64 = 0;
    let mut i: usize = from;
    while i < to
        invariant
            from <= i <= to <= v.len(),
            s == v@.subrange(from as int, to as int),
            all_digits(s.take(i - from)),
            acc == digits_value(s.take(i - from)),
        decreases to - i,
    {
        let ghost k = i - from;
        assert(s.take(k + 1).drop_last() == s.take(k));
        assert(s.take(k + 1).last() == v@[i as int]);
        let d = match digit_of(v[i]) {
            Some(d) => d,
            None => {
                assert(!is_digit(s[k]));
                return None;
            },
        };
        proof {
            lemma_digits_prefix(s, k + 1);
        }
        let tenfold = match acc.checked_mul(10) {
            Some(t) => t,
            None => {
                return None;
            },
        };
        acc = match tenfold.checked_add(d as u64) {
            Some(t) => t,
            None => {
                return None;
            },
        };
        assert forall|j: int| 0 <= j < s.take(k + 1).len() implies is_digit(
            #[trigger] s.take(k + 1)[j],
        ) by {
            if j < k {
                assert(s.take(k + 1)[j] == s.take(k)[j]);
            }
        }
        i = i + 1;
    }
    assert(s.take(to - from) == s);
    Some(acc)
}

/// Reads an unsigned decimal number: an optional `+`, then one or more
/// digits, with a value that fits in 64 bits.
pub fn parse_u64(v: &Vec<char>) -> (r: Option<u64>)
    ensures
        r is Some <==> is_unsigned(v@) && unsigned_value(v@) <= u64::MAX,
        r matches Some(n) ==> n == unsigned_value(v@),
{
    let from: usize = if v.len() > 0 && v[0] == '+' {
        1
    } else {
        0
    };
    assert(v@.subrange(from as int, v.len() as int) == unsigned_digits(v@));
    if from == v.len() {
        return None;
    }
    parse_digits(v, from, v.len())
}

/// Reads an unsigned decimal number with a value that fits in 32 bits.
pub fn parse_u32(v: &Vec<char>) -> (r: Option<u32>)
    ensures
        r is Some <==> is_unsigned(v@) && unsigned_value(v@) <= u32::MAX,
        r matches Some(n) ==> n == unsigned_value(v@),
{
    match parse_u64(v) {
        Some(n) => {
            if n <= 0xFFFF_FFFF {
                Some(n as u32)
            } else {
                None
            }
        },
        None => None,
    }
}

/// Ten to the power `n`.
pub open spec fn pow10(n: nat) -> nat
    decreases n,
{
    if n == 0 {
        1
    } else {
        10 * pow10((n - 1) as nat)
    }
}

/// The bounds of powers of ten up to the ninth.
pub proof fn lemma_pow10(n: nat)
    requires
        n <= 9,
    ensures
        pow10(n) <= 1_000_000_000,
        n == 9 ==> pow10(n) == 1_000_000_000,
{
    reveal_with_fuel(pow10, 10);
}

/// The decimal digits of a number, without leading zeros.
pub open spec fn decimal_text(n: nat) -> Seq<char>
    decreases n,
{
    if n < 10 {
        seq![(n + 48) as char]
    } else {
        decimal_text(n / 10).push(((n % 10) + 48) as char)
    }
}

/// Writes a number in decimal digits.
pub fn render_decimal(n: u128) -> (r: Vec<char>)
    ensures
        r@ == decimal_text(n as nat),
{
    let mut reversed: Vec<char> = Vec::new();
    reversed.push(digit_char((n % 10) as u8));
    let mut m: u128 = n / 10;
    assert(reversed@.reverse() == seq![((n % 10) + 48) as char]);
    while m > 0
        invariant
            decimal_text(n as nat) == (if m > 0 {
                decimal_text(m as nat)
            } else {
                Seq::<char>::empty()
            }) + reversed@.reverse(),
        decreases m,
    {
        let d = digit_char((m % 10) as u8);
        let ghost before = reversed@;
        reversed.push(d);
        assert(reversed@.reverse() == seq![d] + before.reverse());
        assert(decimal_text(m as nat) == (if m / 10 > 0 {
            decimal_text((m / 10) as nat)
        } else {
            Seq::<char>::empty()
        }).push(d));
        m = m / 10;
    }
    let mut r: Vec<char> = Vec::new();
    let mut i: usize = reversed.len();
    while i > 0
        invariant
            i <= reversed.len(),
            r@ == reversed@.reverse().take(reversed.len() - i),
        decreases i,
    {
        i = i - 1;
        r.push(reversed[i]);
        assert(reversed@.reverse().take(reversed.len() - i) == reversed@.reverse().take(
            reversed.len() - i - 1,
        ).push(reversed@[i as int]));
    }
    assert(reversed@.reverse().take(reversed.len() as int) == reversed@.reverse());
    r
}

/// The decimal digits of a number are digits, begin with no `+`, and read
/// back as that number.
pub proof fn lemma_decimal_text(n: nat)
    ensures
        decimal_text(n).len() > 0,
        all_digits(decimal_text(n)),
        digits_value(decimal_text(n)) == n,
        is_unsigned(decimal_text(n)),
        unsigned_value(decimal_text(n)) == n,
        !white_space(decimal_text(n)[0]),
        !white_space(decimal_text(n).last()),
    decreases n,
{
    if n < 10 {
        let s = decimal_text(n);
        assert(s.len() == 1);
        assert(s.drop_last().len() == 0);
        assert(digits_value(s) == digits_value(s.drop_last()) * 10 + digit_value(s.last()));
    } else {
        lemma_decimal_text(n / 10);
        let p = decimal_text(n / 10);
        let s = decimal_text(n);
        assert(s == p.push(((n % 10) + 48) as char));
        assert(s.drop_last() == p);
        assert(digits_value(s) == digits_value(p) * 10 + digit_value(s.last()));
        assert forall|i: int| 0 <= i < s.len() implies is_digit(#[trigger] s[i]) by {
            if i < p.len() {
                assert(s[i] == p[i]);
            }
        }
        assert(s[0] == p[0]);
    }
}

/// Trimming leaves the decimal digits of a number as they are.
pub proof fn lemma_trim_decimal_text(n: nat)
    ensures
        trimmed(decimal_text(n)) == decimal_text(n),
{
    lemma_decimal_text(n);
}

} // verus!
