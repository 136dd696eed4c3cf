//! Text as sequences of characters: trimming, searching, splitting and decimal numbers.
use vstd::prelude::*;
use vstd::string::StrSliceExecFns;
use vstd::string::StringExecFns;

verus! {

// ----- characters -----

/// The White_Space property of Unicode.
pub open spec fn white_space(c: char) -> bool {
    ||| '\u{9}' <= c <= '\u{d}'
    ||| c == '\u{20}'
    ||| c == '\u{85}'
    ||| c == '\u{a0}'
    ||| c == '\u{1680}'
    ||| '\u{2000}' <= c <= '\u{200a}'
    ||| c == '\u{2028}'
    ||| c == '\u{2029}'
    ||| c == '\u{202f}'
    ||| c == '\u{205f}'
    ||| c == '\u{3000}'
}

/// `char::is_whitespace` of the standard library: whether the character has the
/// White_Space property of Unicode, written out as `white_space`.
pub assume_specification[ char::is_whitespace ](c: char) -> (b: bool)
    ensures
        b == white_space(c),
;

/// `String::push` of the standard library: appends one character.
pub assume_specification[ String::push ](s: &mut String, c: char)
    ensures
        final(s)@ == old(s)@.push(c),
;

/// Whether the character is one of `0` to `9`.
pub open spec fn is_digit(c: char) -> bool {
    '0' <= c <= '9'
}

/// A character with an ASCII capital replaced by its small letter.
pub open spec fn lower_char(c: char) -> char {
    if 'A' <= c <= 'Z' {
        (c as u32 + 32) as char
    } else {
        c
    }
}

fn to_lower_char(c: char) -> (r: char)
    ensures
        r == lower_char(c),
{
    if 'A' <= c && c <= 'Z' {
        let low: u8 = c as u8 + 32;
        low as char
    } else {
        c
    }
}

/// The digit with the value `d`.
pub open spec fn digit(d: int) -> char
    recommends
        0 <= d < 10,
{
    (48 + d) as char
}

fn to_digit(d: u8) -> (r: char)
    requires
        d < 10,
    ensures
        r == digit(d as int),
{
    let code: u8 = 48 + d;
    code as char
}

// ----- characters of a string -----

/// All characters of a string, in order.
pub fn chars_of(s: &str) -> (r: Vec<char>)
    ensures
        r@ == s@,
{
    let mut out: Vec<char> = Vec::new();
    for c in it: s.chars()
        invariant
            out@ == it.seq().take(it.index() as int),
            it.seq() == s@,
    {
        out.push(c);
    }
    out
}

/// The string made of the given characters.
pub fn string_of(v: &[char]) -> (r: String)
    ensures
        r@ == v@,
{
    let mut out = String::new();
    let mut i: usize = 0;
    while i < v.len()
        invariant
            i <= v@.len(),
            out@ == v@.take(i as int),
        decreases v@.len() - i,
    {
        out.push(v[i]);
        i = i + 1;
    }
    assert(v@.take(i as int) == v@);
    out
}

/// The views of a list of strings.
pub open spec fn views(v: Seq<String>) -> Seq<Seq<char>> {
    v.map_values(|s: String| s@)
}

/// Whether two strings hold the same characters.
pub fn same_text(a: &str, b: &str) -> (r: bool)
    ensures
        r == (a@ == b@),
{
    let x = chars_of(a);
    let y = chars_of(b);
    if x.len() != y.len() {
        return false;
    }
    let mut i: usize = 0;
    while i < x.len()
        invariant
            x@ == a@,
            y@ == b@,
            x@.len() == y@.len(),
            i <= x@.len(),
            forall|k: int| 0 <= k < i ==> x@[k] == y@[k],
        decreases x@.len() - i,
    {
        if x[i] != y[i] {
            return false;
        }
        i = i + 1;
    }
    assert(a@ =~= b@);
    true
}

/// One string behind another.
pub fn join(a: &str, b: &str) -> (r: String)
    ensures
        r@ == a@ + b@,
{
    let mut out = a.to_owned();
    out.append(b);
    out
}

// ----- trimming -----

/// The text without the white space at its start.
pub open spec fn trimmed_start(s: Seq<char>) -> Seq<char>
    decreases s.len(),
{
    if s.len() > 0 && white_space(s[0]) {
        trimmed_start(s.drop_first())
    } else {
        s
    }
}

/// The text without the white space at its end.
pub open spec fn trimmed_end(s: Seq<char>) -> Seq<char>
    decreases s.len(),
{
    if s.len() > 0 && white_space(s.last()) {
        trimmed_end(s.drop_last())
    } else {
        s
    }
}

/// The text without the white space at both ends.
pub open spec fn trimmed(s: Seq<char>) -> Seq<char> {
    trimmed_end(trimmed_start(s))
}

/// Whether nothing is left of the text once it is trimmed.
pub open spec fn blank(s: Seq<char>) -> bool {
    trimmed(s).len() == 0
}

/// How many characters at the start are white space.
fn leading_white_space(v: &[char]) -> (n: usize)
    ensures
        n <= v@.len(),
        trimmed_start(v@) == v@.skip(n as int),
{
    let mut n: usize = 0;
    assert(v@.skip(0) == v@);
    while n < v.len() && v[n].is_whitespace()
        invariant
            n <= v@.len(),
            trimmed_start(v@) == trimmed_start(v@.skip(n as int)),
        decreases v@.len() - n,
    {
        assert(v@.skip(n as int).drop_first() == v@.skip(n + 1));
        n = n + 1;
    }
    n
}

/// Where the text ends once the white space at its end is left out, if it starts at `from`.
fn end_before_white_space(v: &[char], from: usize) -> (to: usize)
    requires
        from <= v@.len(),
    ensures
        from <= to <= v@.len(),
        trimmed_end(v@.skip(from as int)) == v@.subrange(from as int, to as int),
{
    let mut to: usize = v.len();
    assert(v@.subrange(from as int, to as int) == v@.skip(from as int));
    while from < to && v[to - 1].is_whitespace()
        invariant
            from <= to <= v@.len(),
            trimmed_end(v@.skip(from as int)) == trimmed_end(v@.subrange(from as int, to as int)),
        decreases to,
    {
        assert(v@.subrange(from as int, to as int).drop_last() == v@.subrange(from as int, to - 1));
        to = to - 1;
    }
    to
}

/// Without the white space at both ends.
pub fn trim(s: &str) -> (r: &str)
    ensures
        r@ == trimmed(s@),
{
    let v = chars_of(s);
    let from = leading_white_space(&v);
    let to = end_before_white_space(&v, from);
    s.substring_char(from, to)
}

/// Trimming leaves no white space at either end.
pub proof fn law_trimmed_has_no_outer_white_space(s: Seq<char>)
    ensures
        trimmed(s).len() > 0 ==> !white_space(trimmed(s)[0]) && !white_space(trimmed(s).last()),
{
    lemma_trimmed_start(s);
    lemma_trimmed_end(trimmed_start(s));
}

/// Trimming a trimmed text changes nothing.
pub proof fn law_trim_twice(s: Seq<char>)
    ensures
        trimmed(trimmed(s)) == trimmed(s),
{
    law_trimmed_has_no_outer_white_space(s);
}

proof fn lemma_trimmed_start(s: Seq<char>)
    ensures
        trimmed_start(s).len() > 0 ==> !white_space(trimmed_start(s)[0]),
    decreases s.len(),
{
    if s.len() > 0 && white_space(s[0]) {
        lemma_trimmed_start(s.drop_first());
    }
}

proof fn lemma_trimmed_end(s: Seq<char>)
    ensures
        trimmed_end(s).len() <= s.len(),
        trimmed_end(s) == s.take(trimmed_end(s).len() as int),
        trimmed_end(s).len() > 0 ==> !white_space(trimmed_end(s).last()),
    decreases s.len(),
{
    if s.len() > 0 && white_space(s.last()) {
        lemma_trimmed_end(s.drop_last());
        assert(s.drop_last().take(trimmed_end(s).len() as int) == s.take(trimmed_end(s).len() as int));
    } else {
        assert(s.take(s.len() as int) == s);
    }
}

/// A text with a character that is no white space is not blank, and keeps that character
/// when it is trimmed.
pub proof fn lemma_not_blank(s: Seq<char>, i: int)
    requires
        0 <= i < s.len(),
        !white_space(s[i]),
    ensures
        !blank(s),
    decreases s.len(),
{
    if i > 0 && white_space(s[0]) {
        lemma_not_blank(s.drop_first(), i - 1);
    } else {
        lemma_trimmed_end_keeps(s, if i > 0 { 0 } else { i });
    }
}

proof fn lemma_trimmed_end_keeps(s: Seq<char>, i: int)
    requires
        0 <= i < s.len(),
        !white_space(s[i]),
    ensures
        trimmed_end(s).len() > i,
    decreases s.len(),
{
    if white_space(s.last()) {
        lemma_trimmed_end_keeps(s.drop_last(), i);
    }
}

// ----- words and lines -----

/// How many characters at the start are not white space.
pub open spec fn word_length(s: Seq<char>) -> nat
    decreases s.len(),
{
    if s.len() == 0 || white_space(s[0]) {
        0
    } else {
        1 + word_length(s.drop_first())
    }
}

/// The first word of the text; empty where there is none.
pub open spec fn first_word(s: Seq<char>) -> Seq<char> {
    trimmed_start(s).take(word_length(trimmed_start(s)) as int)
}

/// What stands behind the first word of the text.
pub open spec fn after_first_word(s: Seq<char>) -> Seq<char> {
    trimmed_start(s).skip(word_length(trimmed_start(s)) as int)
}

proof fn lemma_word_length(s: Seq<char>, n: int)
    requires
        0 <= n <= s.len(),
        forall|k: int| 0 <= k < n ==> !white_space(s[k]),
        n < s.len() ==> white_space(s[n]),
    ensures
        word_length(s) == n,
    decreases n,
{
    if n > 0 {
        assert(!white_space(s[0]));
        lemma_word_length(s.drop_first(), n - 1);
    }
}

/// A word, and then nothing or white space: the word is the first word.
pub proof fn lemma_first_word(word: Seq<char>, rest: Seq<char>)
    requires
        word.len() > 0,
        forall|k: int| 0 <= k < word.len() ==> !white_space(#[trigger] word[k]),
        rest.len() > 0 ==> white_space(rest[0]),
    ensures
        first_word(word + rest) == word,
        after_first_word(word + rest) == rest,
{
    let whole = word + rest;
    assert(whole[0] == word[0]);
    assert forall|k: int| 0 <= k < word.len() implies !white_space(whole[k]) by {
        assert(whole[k] == word[k]);
    }
    lemma_word_length(whole, word.len() as int);
    assert(whole.take(word.len() as int) =~= word);
    assert(whole.skip(word.len() as int) =~= rest);
}

/// White space before the first word does not matter.
pub proof fn lemma_leading_space(s: Seq<char>)
    requires
        s.len() > 0,
        white_space(s[0]),
    ensures
        first_word(s) == first_word(s.drop_first()),
        after_first_word(s) == after_first_word(s.drop_first()),
{
}

/// Splits the text behind its first word.
pub fn split_first_word(v: &[char]) -> (r: (Vec<char>, Vec<char>))
    ensures
        r.0@ == first_word(v@),
        r.1@ == after_first_word(v@),
{
    let from = leading_white_space(v);
    let mut to: usize = from;
    while to < v.len() && !v[to].is_whitespace()
        invariant
            from <= to <= v@.len(),
            forall|k: int| from <= k < to ==> !white_space(v@[k]),
        decreases v@.len() - to,
    {
        to = to + 1;
    }
    proof {
        lemma_word_length(v@.skip(from as int), to - from);
        assert(v@.skip(from as int).take(to - from) == v@.subrange(from as int, to as int));
        assert(v@.skip(from as int).skip(to - from) == v@.subrange(to as int, v@.len() as int));
    }
    (slice_copy(v, from, to), slice_copy(v, to, v.len()))
}

/// The characters from `from` up to `to`.
pub fn slice_copy(v: &[char], from: usize, to: usize) -> (r: Vec<char>)
    requires
        from <= to <= v@.len(),
    ensures
        r@ == v@.subrange(from as int, to as int),
{
    let mut out: Vec<char> = Vec::new();
    let mut i: usize = from;
    while i < to
        invariant
            from <= i <= to <= v@.len(),
            out@ == v@.subrange(from as int, i as int),
        decreases to - i,
    {
        out.push(v[i]);
        i = i + 1;
        assert(v@.subrange(from as int, i as int) == v@.subrange(from as int, i - 1).push(v@[i - 1]));
    }
    out
}

/// The line without the carriage return at its end, if it has one.
pub open spec fn without_return(s: Seq<char>) -> Seq<char> {
    if s.len() > 0 && s.last() == '\r' {
        s.drop_last()
    } else {
        s
    }
}

/// The lines of the text: each ends with a line feed, or a carriage return and a line feed,
/// that do not belong to it; what stands behind the last line feed is a line if it is not empty.
pub open spec fn lines_of(s: Seq<char>) -> Seq<Seq<char>>
    decreases s.len(),
    via lines_of_decreases
{
    if s.len() == 0 {
        Seq::empty()
    } else {
        match first_index(s, '\n') {
            Some(i) => seq![without_return(s.take(i))] + lines_of(s.skip(i + 1)),
            None => seq![s],
        }
    }
}

#[via_fn]
proof fn lines_of_decreases(s: Seq<char>) {
    lemma_first_index_in_range(s, '\n');
}

/// The first line of the text; empty where the text is.
pub open spec fn first_line(s: Seq<char>) -> Seq<char> {
    match first_index(s, '\n') {
        Some(i) => without_return(s.take(i)),
        None => s,
    }
}

/// The first line of the text is the first of its lines.
pub proof fn law_first_line_is_first(s: Seq<char>)
    ensures
        s.len() > 0 ==> lines_of(s).len() > 0 && lines_of(s)[0] == first_line(s),
        s.len() == 0 ==> first_line(s).len() == 0,
{
}

/// The first line of the text.
pub fn first_line_of(v: &[char]) -> (r: Vec<char>)
    ensures
        r@ == first_line(v@),
{
    match position_of(v, '\n') {
        Some(i) => {
            if i > 0 && v[i - 1] == '\r' {
                assert(v@.take(i as int).drop_last() == v@.subrange(0, i - 1));
                slice_copy(v, 0, i - 1)
            } else {
                assert(v@.take(i as int) == v@.subrange(0, i as int));
                slice_copy(v, 0, i)
            }
        },
        None => {
            assert(v@ == v@.subrange(0, v@.len() as int));
            slice_copy(v, 0, v.len())
        },
    }
}

/// The lines of the text.
pub fn split_lines(s: &str) -> (r: Vec<String>)
    ensures
        views(r@) == lines_of(s@),
{
    let v = chars_of(s);
    let mut out: Vec<String> = Vec::new();
    let mut from: usize = 0;
    assert(v@.skip(0) == v@);
    assert(views(out@) + lines_of(v@) == lines_of(v@));
    while from < v.len()
        invariant
            v@ == s@,
            from <= v@.len(),
            views(out@) + lines_of(v@.skip(from as int)) == lines_of(s@),
        decreases v@.len() - from,
    {
        let rest = slice_copy(&v, from, v.len());
        assert(rest@ == v@.skip(from as int));
        let ghost before = out@;
        let line = first_line_of(&rest);
        let text = string_of(&line);
        proof {
            lemma_first_index_in_range(rest@, '\n');
        }
        out.push(text);
        assert(views(out@) == views(before).push(line@));
        match position_of(&rest, '\n') {
            Some(i) => {
                assert(rest@.skip(i + 1) == v@.skip(from + i + 1));
                assert(views(before).push(line@) + lines_of(rest@.skip(i + 1)) == views(before) + (
                seq![line@] + lines_of(rest@.skip(i + 1))));
                from = from + i + 1;
            },
            None => {
                assert(v@.skip(v@.len() as int) == Seq::<char>::empty());
                assert(views(before).push(line@) + Seq::<Seq<char>>::empty() == views(before)
                    + seq![line@]);
                from = v.len();
            },
        }
    }
    assert(v@.skip(from as int) == Seq::<char>::empty());
    assert(views(out@) + Seq::<Seq<char>>::empty() == views(out@));
    out
}

// ----- searching -----

/// Whether `needle` stands in `hay` at position `i`.
pub open spec fn occurs_at<T>(hay: Seq<T>, needle: Seq<T>, i: int) -> bool {
    &&& 0 <= i
    &&& i + needle.len() <= hay.len()
    &&& hay.subrange(i, i + needle.len()) == needle
}

/// Whether `needle` stands somewhere in `hay`.
pub open spec fn contains<T>(hay: Seq<T>, needle: Seq<T>) -> bool {
    exists|i: int| occurs_at(hay, needle, i)
}

/// The first position from `i` on at which `needle` stands in `hay`.
pub open spec fn find_from<T>(hay: Seq<T>, needle: Seq<T>, i: int) -> Option<int>
    decreases hay.len() + 1 - i,
{
    if i + needle.len() > hay.len() {
        None
    } else if occurs_at(hay, needle, i) {
        Some(i)
    } else {
        find_from(hay, needle, i + 1)
    }
}

/// The first position at which `needle` stands in `hay`.
pub open spec fn find<T>(hay: Seq<T>, needle: Seq<T>) -> Option<int> {
    find_from(hay, needle, 0)
}

proof fn lemma_find_from<T>(hay: Seq<T>, needle: Seq<T>, i: int)
    requires
        0 <= i,
    ensures
        match find_from(hay, needle, i) {
            Some(k) => i <= k && occurs_at(hay, needle, k) && forall|j: int|
                i <= j < k ==> !occurs_at(hay, needle, j),
            None => forall|j: int| i <= j ==> !occurs_at(hay, needle, j),
        },
    decreases hay.len() + 1 - i,
{
    if i + needle.len() > hay.len() {
    } else if occurs_at(hay, needle, i) {
    } else {
        lemma_find_from(hay, needle, i + 1);
    }
}

/// The position that `find` gives is the first of all occurrences, and it gives one
/// exactly where there is an occurrence.
pub proof fn law_find_is_first<T>(hay: Seq<T>, needle: Seq<T>)
    ensures
        find(hay, needle) is Some <==> contains(hay, needle),
        find(hay, needle) matches Some(k) ==> occurs_at(hay, needle, k) && forall|j: int|
            occurs_at(hay, needle, j) ==> k <= j,
{
    lemma_find_from(hay, needle, 0);
}

/// Whether `needle` stands in `hay` at the position.
fn chars_at(hay: &[char], needle: &[char], i: usize) -> (r: bool)
    ensures
        r == occurs_at(hay@, needle@, i as int),
{
    if i > hay.len() || needle.len() > hay.len() - i {
        return false;
    }
    let mut k: usize = 0;
    while k < needle.len()
        invariant
            k <= needle@.len(),
            i + needle@.len() <= hay@.len() <= usize::MAX,
            forall|m: int| 0 <= m < k ==> hay@[i + m] == needle@[m],
        decreases needle@.len() - k,
    {
        if hay[i + k] != needle[k] {
            assert(hay@.subrange(i as int, i + needle@.len())[k as int] == hay@[i + k]);
            return false;
        }
        k = k + 1;
    }
    assert(hay@.subrange(i as int, i + needle@.len()) =~= needle@);
    true
}

/// The first position of `needle` among the characters `hay`.
pub fn find_chars(hay: &[char], needle: &[char]) -> (r: Option<usize>)
    ensures
        match r {
            Some(k) => find(hay@, needle@) == Some(k as int),
            None => find(hay@, needle@) is None,
        },
{
    let mut i: usize = 0;
    while i <= hay.len() && needle.len() <= hay.len() - i
        invariant
            i <= hay@.len(),
            find(hay@, needle@) == find_from(hay@, needle@, i as int),
        decreases hay@.len() + 1 - i,
    {
        if chars_at(hay, needle, i) {
            return Some(i);
        }
        if i == hay.len() {
            assert(find_from(hay@, needle@, i + 1) is None);
            return None;
        }
        i = i + 1;
    }
    None
}

/// The first position of `needle` among the bytes `hay`.
pub fn find_bytes(hay: &[u8], needle: &[u8]) -> (r: Option<usize>)
    ensures
        match r {
            Some(k) => find(hay@, needle@) == Some(k as int),
            None => find(hay@, needle@) is None,
        },
{
    let total: usize = hay.len();
    let mut i: usize = 0;
    while i <= hay.len() && needle.len() <= hay.len() - i
        invariant
            i <= hay@.len() + 1,
            hay@.len() == total,
            find(hay@, needle@) == find_from(hay@, needle@, i as int),
        decreases hay@.len() + 1 - i,
    {
        let mut k: usize = 0;
        while k < needle.len() && hay[i + k] == needle[k]
            invariant
                k <= needle@.len(),
                i + needle@.len() <= hay@.len(),
                hay@.len() == total,
                forall|m: int| 0 <= m < k ==> hay@[i + m] == needle@[m],
            decreases needle@.len() - k,
        {
            k = k + 1;
        }
        if k == needle.len() {
            assert(hay@.subrange(i as int, i + needle@.len()) =~= needle@);
            return Some(i);
        }
        assert(hay@.subrange(i as int, i + needle@.len())[k as int] == hay@[i + k]);
        if i == hay.len() {
            return None;
        }
        i = i + 1;
    }
    None
}

/// Whether `needle` stands somewhere in `hay`.
pub fn has_text(hay: &str, needle: &str) -> (r: bool)
    ensures
        r == contains(hay@, needle@),
{
    let h = chars_of(hay);
    let n = chars_of(needle);
    let at = find_chars(&h, &n);
    proof {
        law_find_is_first(hay@, needle@);
    }
    at.is_some()
}

/// Whether the text begins with `prefix`.
pub open spec fn starts_with(s: Seq<char>, prefix: Seq<char>) -> bool {
    occurs_at(s, prefix, 0)
}

/// Whether the text begins with `prefix`.
pub fn has_prefix(s: &str, prefix: &str) -> (r: bool)
    ensures
        r == starts_with(s@, prefix@),
{
    chars_at(&chars_of(s), &chars_of(prefix), 0)
}

/// Whether a character can be part of the name or the number of a host.
pub open spec fn host_char(c: char) -> bool {
    ||| is_digit(c)
    ||| 'a' <= c <= 'z'
    ||| 'A' <= c <= 'Z'
    ||| c == '.'
    ||| c == '-'
    ||| c == '_'
}

/// Whether the address stands in `hay` at the position as a whole: it is neither the end of a
/// longer host nor the beginning of a longer port.
pub open spec fn stands_at(hay: Seq<char>, address: Seq<char>, i: int) -> bool {
    let end = i + address.len();
    &&& occurs_at(hay, address, i)
    &&& i == 0 || !host_char(hay[i - 1])
    &&& end == hay.len() || !is_digit(hay[end])
}

/// Whether the address stands somewhere in `hay` as a whole.
pub open spec fn names_address(hay: Seq<char>, address: Seq<char>) -> bool {
    exists|i: int| stands_at(hay, address, i)
}

fn is_host_char(c: char) -> (r: bool)
    ensures
        r == host_char(c),
{
    ('0' <= c && c <= '9') || ('a' <= c && c <= 'z') || ('A' <= c && c <= 'Z') || c == '.' || c
        == '-' || c == '_'
}

/// Whether the address stands somewhere in `hay` as a whole.
pub fn has_address(hay: &str, address: &str) -> (r: bool)
    ensures
        r == names_address(hay@, address@),
{
    let h = chars_of(hay);
    let a = chars_of(address);
    let mut i: usize = 0;
    while i <= h.len() && a.len() <= h.len() - i
        invariant
            h@ == hay@,
            a@ == address@,
            i <= h@.len(),
            forall|k: int| 0 <= k < i ==> !stands_at(hay@, address@, k),
        decreases h@.len() + 1 - i,
    {
        if chars_at(&h, &a, i) {
            let end: usize = i + a.len();
            if (i == 0 || !is_host_char(h[i - 1])) && (end == h.len() || !('0' <= h[end]
                && h[end] <= '9')) {
                assert(stands_at(hay@, address@, i as int));
                return true;
            }
        }
        if i == h.len() {
            return false;
        }
        i = i + 1;
    }
    false
}

/// Whether the host stands in `hay` at the position as a whole: it is no part of a longer one.
pub open spec fn host_stands_at(hay: Seq<char>, host: Seq<char>, i: int) -> bool {
    let end = i + host.len();
    &&& occurs_at(hay, host, i)
    &&& i == 0 || !host_char(hay[i - 1])
    &&& end == hay.len() || !host_char(hay[end])
}

/// Whether the host stands somewhere in `hay` as a whole.
pub open spec fn names_host(hay: Seq<char>, host: Seq<char>) -> bool {
    exists|i: int| host_stands_at(hay, host, i)
}

/// Whether the host stands somewhere in `hay` as a whole.
pub fn has_host(hay: &str, host: &str) -> (r: bool)
    ensures
        r == names_host(hay@, host@),
{
    let h = chars_of(hay);
    let a = chars_of(host);
    let mut i: usize = 0;
    while i <= h.len() && a.len() <= h.len() - i
        invariant
            h@ == hay@,
            a@ == host@,
            i <= h@.len(),
            forall|k: int| 0 <= k < i ==> !host_stands_at(hay@, host@, k),
        decreases h@.len() + 1 - i,
    {
        if chars_at(&h, &a, i) {
            let end: usize = i + a.len();
            if (i == 0 || !is_host_char(h[i - 1])) && (end == h.len() || !is_host_char(h[end])) {
                assert(host_stands_at(hay@, host@, i as int));
                return true;
            }
        }
        if i == h.len() {
            return false;
        }
        i = i + 1;
    }
    false
}

/// A host that stands alone, or behind other text that is no part of a host, is the only one
/// that is named.
pub proof fn law_host_is_named_as_a_whole(before: Seq<char>, named: Seq<char>, host: Seq<char>)
    requires
        named.len() > 0,
        host.len() > 0,
        forall|k: int| 0 <= k < named.len() ==> host_char(#[trigger] named[k]),
        forall|k: int| 0 <= k < host.len() ==> host_char(#[trigger] host[k]),
        forall|k: int| 0 <= k < before.len() ==> !host_char(#[trigger] before[k]),
    ensures
        names_host(before + named, host) <==> named == host,
{
    let hay = before + named;
    let n = before.len() as int;
    assert(hay.subrange(n, n + named.len()) =~= named);
    if named == host {
        assert(host_stands_at(hay, host, n));
    }
    assert forall|i: int| #[trigger] host_stands_at(hay, host, i) implies named == host by {
        let found = hay.subrange(i, i + host.len());
        assert(found[0] == hay[i]);
        if i > n {
            assert(hay[i - 1] == named[i - 1 - n]);
        } else if i < n {
            assert(hay[i] == before[i]);
        }
        if i + host.len() < hay.len() {
            assert(hay[i + host.len()] == named[i + host.len() - n]);
        }
    }
}

/// The first position of the character.
pub open spec fn first_index(s: Seq<char>, c: char) -> Option<int>
    decreases s.len(),
{
    if s.len() == 0 {
        None
    } else if s[0] == c {
        Some(0)
    } else {
        match first_index(s.drop_first(), c) {
            Some(i) => Some(i + 1),
            None => None,
        }
    }
}

/// The last position of the character.
pub open spec fn last_index(s: Seq<char>, c: char) -> Option<int>
    decreases s.len(),
{
    if s.len() == 0 {
        None
    } else if s.last() == c {
        Some(s.len() - 1)
    } else {
        last_index(s.drop_last(), c)
    }
}

/// A position that holds the character, with none before it, is the first.
pub proof fn lemma_first_index(s: Seq<char>, c: char, i: int)
    requires
        0 <= i <= s.len(),
        forall|k: int| 0 <= k < i ==> s[k] != c,
    ensures
        i < s.len() && s[i] == c ==> first_index(s, c) == Some(i),
        i == s.len() ==> first_index(s, c) is None,
    decreases s.len(),
{
    if s.len() > 0 && i > 0 {
        assert(s[0] != c);
        lemma_first_index(s.drop_first(), c, i - 1);
    }
}

/// Where the first position of a character is, and that nothing before it is the character.
pub proof fn lemma_first_index_in_range(s: Seq<char>, c: char)
    ensures
        match first_index(s, c) {
            Some(i) => 0 <= i < s.len() && s[i] == c && forall|k: int| 0 <= k < i ==> s[k] != c,
            None => forall|k: int| 0 <= k < s.len() ==> s[k] != c,
        },
    decreases s.len(),
{
    if s.len() > 0 && s[0] != c {
        lemma_first_index_in_range(s.drop_first(), c);
        assert forall|k: int| 1 <= k < s.len() implies s[k] == s.drop_first()[k - 1] by {}
    }
}

/// A position that holds the character, with none behind it, is the last.
pub proof fn lemma_last_index(s: Seq<char>, c: char, i: int)
    requires
        -1 <= i < s.len(),
        forall|k: int| i < k < s.len() ==> s[k] != c,
    ensures
        i >= 0 && s[i] == c ==> last_index(s, c) == Some(i),
        i == -1 ==> last_index(s, c) is None,
    decreases s.len(),
{
    if s.len() > 0 && i < s.len() - 1 {
        assert(s.last() != c);
        lemma_last_index(s.drop_last(), c, i);
    }
}

/// Where the last position of a character is, and that nothing behind it is the character.
pub proof fn lemma_last_index_is_last(s: Seq<char>, c: char)
    ensures
        match last_index(s, c) {
            Some(i) => 0 <= i < s.len() && s[i] == c && forall|k: int|
                i < k < s.len() ==> s[k] != c,
            None => forall|k: int| 0 <= k < s.len() ==> s[k] != c,
        },
    decreases s.len(),
{
    if s.len() > 0 && s.last() != c {
        lemma_last_index_is_last(s.drop_last(), c);
        assert forall|k: int| 0 <= k < s.len() - 1 implies s[k] == s.drop_last()[k] by {}
    }
}

/// The first position of the character.
pub fn position_of(v: &[char], c: char) -> (r: Option<usize>)
    ensures
        match r {
            Some(i) => i < v@.len() && first_index(v@, c) == Some(i as int),
            None => first_index(v@, c) is None,
        },
{
    let mut i: usize = 0;
    while i < v.len()
        invariant
            i <= v@.len(),
            forall|k: int| 0 <= k < i ==> v@[k] != c,
        decreases v@.len() - i,
    {
        if v[i] == c {
            proof {
                lemma_first_index(v@, c, i as int);
            }
            return Some(i);
        }
        i = i + 1;
    }
    proof {
        lemma_first_index(v@, c, i as int);
    }
    None
}

/// The last position of the character.
pub fn last_position_of(v: &[char], c: char) -> (r: Option<usize>)
    ensures
        match r {
            Some(i) => i < v@.len() && last_index(v@, c) == Some(i as int),
            None => last_index(v@, c) is None,
        },
{
    let mut i: usize = v.len();
    while i > 0
        invariant
            i <= v@.len(),
            forall|k: int| i <= k < v@.len() ==> v@[k] != c,
        decreases i,
    {
        if v[i - 1] == c {
            proof {
                lemma_last_index(v@, c, i - 1);
            }
            return Some(i - 1);
        }
        i = i - 1;
    }
    proof {
        lemma_last_index(v@, c, -1);
    }
    None
}

// ----- case -----

/// The text with its ASCII capitals replaced by small letters.
pub open spec fn lowered(s: Seq<char>) -> Seq<char> {
    s.map_values(|c: char| lower_char(c))
}

/// Lowering two texts lowers their join.
pub proof fn lemma_lowered_join(a: Seq<char>, b: Seq<char>)
    ensures
        lowered(a + b) == lowered(a) + lowered(b),
{
    assert(lowered(a + b) =~= lowered(a) + lowered(b));
}

/// With the ASCII capitals replaced by small letters.
pub fn to_lower(s: &str) -> (r: String)
    ensures
        r@ == lowered(s@),
{
    let v = chars_of(s);
    let mut out = String::new();
    let mut i: usize = 0;
    while i < v.len()
        invariant
            v@ == s@,
            i <= v@.len(),
            out@ == lowered(v@).take(i as int),
        decreases v@.len() - i,
    {
        out.push(to_lower_char(v[i]));
        i = i + 1;
    }
    assert(lowered(v@).take(i as int) == lowered(s@));
    out
}

// ----- numbers -----

/// The decimal digits of a number, without leading zeros.
pub open spec fn decimal(n: nat) -> Seq<char>
    decreases n,
{
    if n < 10 {
        seq![digit(n as int)]
    } else {
        decimal(n / 10).push(digit((n % 10) as int))
    }
}

/// The decimal digits of a number.
pub fn decimal_string(n: u128) -> (r: String)
    ensures
        r@ == decimal(n as nat),
    decreases n,
{
    if n < 10 {
        let mut out = String::new();
        out.push(to_digit(n as u8));
        assert(out@ =~= decimal(n as nat));
        out
    } else {
        let mut out = decimal_string(n / 10);
        out.push(to_digit((n % 10) as u8));
        out
    }
}

/// The number that a run of digits stands for.
pub open spec fn digits_value(s: Seq<char>) -> nat
    decreases s.len(),
{
    if s.len() == 0 {
        0
    } else {
        digits_value(s.drop_last()) * 10 + (s.last() as nat - 48) as nat
    }
}

/// Whether the text is made of digits alone.
pub open spec fn all_digits(s: Seq<char>) -> bool {
    forall|i: int| 0 <= i < s.len() ==> is_digit(#[trigger] s[i])
}

/// The decimal digits of a number are digits, at least one, and stand for the number.
pub proof fn law_decimal_reads_back(n: nat)
    ensures
        decimal(n).len() > 0,
        all_digits(decimal(n)),
        digits_value(decimal(n)) == n,
    decreases n,
{
    reveal_with_fuel(digits_value, 2);
    if n < 10 {
        assert(seq![digit(n as int)].drop_last() == Seq::<char>::empty());
    } else {
        law_decimal_reads_back(n / 10);
        assert(decimal(n).drop_last() == decimal(n / 10));
    }
}

proof fn lemma_digits_value_grows(s: Seq<char>, i: int)
    requires
        0 <= i <= s.len(),
        all_digits(s),
    ensures
        digits_value(s.take(i)) <= digits_value(s),
    decreases s.len() - i,
{
    if i < s.len() {
        lemma_digits_value_grows(s, i + 1);
        assert(s.take(i + 1).drop_last() == s.take(i));
        assert(is_digit(s[i]));
    } else {
        assert(s.take(i) == s);
    }
}

/// The `u16` that a run of digits stands for; nothing for no digits or a larger number.
pub fn parse_u16(v: &[char]) -> (r: Option<u16>)
    requires
        all_digits(v@),
    ensures
        match r {
            Some(n) => v@.len() > 0 && digits_value(v@) == n,
            None => v@.len() == 0 || digits_value(v@) > u16::MAX,
        },
{
    if v.len() == 0 {
        return None;
    }
    let mut acc: u32 = 0;
    let mut i: usize = 0;
    while i < v.len()
        invariant
            i <= v@.len(),
            all_digits(v@),
            acc == digits_value(v@.take(i as int)),
            acc <= u16::MAX,
        decreases v@.len() - i,
    {
        assert(is_digit(v@[i as int]));
        assert(v@.take(i + 1).drop_last() == v@.take(i as int));
        let d: u32 = v[i] as u32 - 48;
        acc = acc * 10 + d;
        i = i + 1;
        if acc > 65535 {
            proof {
                lemma_digits_value_grows(v@, i as int);
            }
            return None;
        }
    }
    assert(v@.take(i as int) == v@);
    Some(acc as u16)
}

/// A number in at least two characters, filled up with `fill` on the left.
pub open spec fn two_wide(n: nat, fill: char) -> Seq<char> {
    if n < 10 {
        seq![fill] + decimal(n)
    } else {
        decimal(n)
    }
}

/// A number in at least two characters.
pub fn two_wide_string(n: u64, fill: char) -> (r: String)
    ensures
        r@ == two_wide(n as nat, fill),
{
    let digits = decimal_string(n as u128);
    if n < 10 {
        let mut out = String::new();
        out.push(fill);
        out.append(digits.as_str());
        assert(out@ =~= two_wide(n as nat, fill));
        out
    } else {
        digits
    }
}

/// A host, a colon and a port.
pub open spec fn address(host: Seq<char>, port: u16) -> Seq<char> {
    host + ":"@ + decimal(port as nat)
}

/// A host, a colon and a port.
pub fn address_string(host: &str, port: u16) -> (r: String)
    ensures
        r@ == address(host@, port),
{
    let mut out = host.to_owned();
    out.append(":");
    out.append(decimal_string(port as u128).as_str());
    out
}

// ----- bytes as text -----

/// What `String::from_utf8_lossy` makes of the bytes.
pub uninterp spec fn utf8_lossy(bytes: Seq<u8>) -> Seq<char>;

/// `String::from_utf8_lossy` of the standard library: the text that the bytes show, with
/// replacement characters for what is no UTF-8. Bytes that are UTF-8 show the text that they
/// encode.
#[verifier::external_body]
pub(crate) fn decode_lossy(bytes: &[u8]) -> (r: String)
    ensures
        r@ == utf8_lossy(bytes@),
        vstd::utf8::valid_utf8(bytes@) ==> r@ == vstd::utf8::decode_utf8(bytes@),
{
    String::from_utf8_lossy(bytes).into_owned()
}

// ----- what trimming, lines and numbers come to -----

/// Trimming takes white space from both ends and nothing else: the text is what was taken from
/// its start, what is left, and what was taken from its end.
pub proof fn law_trimming_takes_white_space_only(s: Seq<char>)
    ensures
        exists|a: int, b: int|
            0 <= a <= b <= s.len() && trimmed(s) == #[trigger] s.subrange(a, b) && (forall|k: int|
                0 <= k < a ==> white_space(#[trigger] s[k])) && (forall|k: int|
                b <= k < s.len() ==> white_space(#[trigger] s[k])),
        blank(s) <==> forall|k: int| 0 <= k < s.len() ==> white_space(#[trigger] s[k]),
{
    let a = lemma_trimmed_start_skips(s);
    let b = lemma_trimmed_end_takes(s.skip(a));
    let whole = s.subrange(a, a + b);
    assert(s.skip(a).take(b) =~= whole);
    assert forall|k: int| a + b <= k < s.len() implies white_space(#[trigger] s[k]) by {
        assert(s.skip(a)[k - a] == s[k]);
    }
    assert(trimmed(s) == whole);
    law_trimmed_has_no_outer_white_space(s);
    if blank(s) {
        assert(b == 0);
    } else {
        assert(whole[0] == s[a]);
        assert(!white_space(s[a]));
    }
}

proof fn lemma_trimmed_start_skips(s: Seq<char>) -> (a: int)
    ensures
        0 <= a <= s.len(),
        trimmed_start(s) == s.skip(a),
        forall|k: int| 0 <= k < a ==> white_space(#[trigger] s[k]),
    decreases s.len(),
{
    if s.len() > 0 && white_space(s[0]) {
        let a = lemma_trimmed_start_skips(s.drop_first());
        assert(s.drop_first().skip(a) =~= s.skip(a + 1));
        assert forall|k: int| 0 <= k < a + 1 implies white_space(#[trigger] s[k]) by {
            if k > 0 {
                assert(s.drop_first()[k - 1] == s[k]);
            }
        }
        a + 1
    } else {
        assert(s.skip(0) =~= s);
        0
    }
}

proof fn lemma_trimmed_end_takes(s: Seq<char>) -> (b: int)
    ensures
        0 <= b <= s.len(),
        trimmed_end(s) == s.take(b),
        forall|k: int| b <= k < s.len() ==> white_space(#[trigger] s[k]),
    decreases s.len(),
{
    if s.len() > 0 && white_space(s.last()) {
        let b = lemma_trimmed_end_takes(s.drop_last());
        assert(s.drop_last().take(b) =~= s.take(b));
        assert forall|k: int| b <= k < s.len() implies white_space(#[trigger] s[k]) by {
            if k < s.len() - 1 {
                assert(s.drop_last()[k] == s[k]);
            }
        }
        b
    } else {
        assert(s.take(s.len() as int) =~= s);
        s.len() as int
    }
}

/// A text with white space around it is trimmed to what it is without.
pub proof fn law_white_space_around_is_trimmed(before: Seq<char>, s: Seq<char>, after: Seq<char>)
    requires
        forall|k: int| 0 <= k < before.len() ==> white_space(#[trigger] before[k]),
        forall|k: int| 0 <= k < after.len() ==> white_space(#[trigger] after[k]),
        s.len() > 0 ==> !white_space(s[0]) && !white_space(s.last()),
    ensures
        trimmed(before + s + after) == s,
{
    let whole = before + s + after;
    if s.len() == 0 {
        assert forall|k: int| 0 <= k < whole.len() implies white_space(#[trigger] whole[k]) by {
            if k < before.len() {
                assert(whole[k] == before[k]);
            } else {
                assert(whole[k] == after[k - before.len()]);
            }
        }
        law_trimming_takes_white_space_only(whole);
        assert(trimmed(whole) =~= s);
    } else {
        let a = lemma_trimmed_start_skips(whole);
        let n = before.len() as int;
        assert(whole[n] == s[0]);
        assert(a <= n);
        if a < n {
            lemma_trimmed_start(whole);
            assert(whole.skip(a)[0] == before[a]);
        }
        assert(whole.skip(n) =~= s + after);
        let b = lemma_trimmed_end_takes(s + after);
        let m = s.len() as int;
        assert((s + after)[m - 1] == s.last());
        assert(b >= m);
        if b > m {
            lemma_trimmed_end(s + after);
            assert((s + after).take(b).last() == after[b - 1 - m]);
        }
        assert((s + after).take(m) =~= s);
    }
}

/// The first line of a text ends before its first line feed, without the carriage return there,
/// and the other lines are those of what stands behind that line feed. No line holds a line feed.
pub proof fn law_lines_are_what_stands_between_line_feeds(line: Seq<char>, rest: Seq<char>)
    requires
        forall|k: int| 0 <= k < line.len() ==> line[k] != '\n',
    ensures
        lines_of(line + seq!['\n'] + rest) == seq![without_return(line)] + lines_of(rest),
        lines_of(line + seq!['\r', '\n'] + rest) == seq![line] + lines_of(rest),
        lines_of(line) == (if line.len() == 0 {
            Seq::empty()
        } else {
            seq![line]
        }),
{
    let n = line.len() as int;
    let a = line + seq!['\n'] + rest;
    assert(forall|k: int| 0 <= k < n ==> a[k] == line[k]);
    lemma_first_index(a, '\n', n);
    assert(a.take(n) =~= line);
    assert(a.skip(n + 1) =~= rest);
    let b = line + seq!['\r', '\n'] + rest;
    assert(forall|k: int| 0 <= k < n ==> b[k] == line[k]);
    lemma_first_index(b, '\n', n + 1);
    assert(b.take(n + 1).drop_last() =~= line);
    assert(b.skip(n + 2) =~= rest);
    lemma_first_index(line, '\n', n);
}

/// The digits of a number begin with a zero only where the number is zero, so that numbers with
/// the same digits are the same.
pub proof fn law_decimal_is_one_of_a_kind(n: nat, m: nat)
    ensures
        decimal(n)[0] == '0' ==> n == 0,
        n < 10 ==> decimal(n).len() == 1,
        n >= 10 ==> decimal(n).len() > 1 && decimal(n)[0] == decimal(n / 10)[0],
        decimal(n) == decimal(m) ==> n == m,
    decreases n,
{
    law_decimal_reads_back(n);
    law_decimal_reads_back(m);
    if n >= 10 {
        law_decimal_is_one_of_a_kind(n / 10, m);
        law_decimal_reads_back(n / 10);
    }
}

/// A number that is filled up on the left has at least two characters, is the number where it is
/// trimmed or filled with zeros, and is not filled where it has two digits already.
pub proof fn law_filled_numbers_read_back(n: nat)
    ensures
        two_wide(n, '0').len() >= 2,
        two_wide(n, ' ').len() >= 2,
        all_digits(two_wide(n, '0')),
        digits_value(two_wide(n, '0')) == n,
        trimmed(two_wide(n, ' ')) == decimal(n),
        n >= 10 ==> two_wide(n, '0') == decimal(n) && two_wide(n, ' ') == decimal(n),
        n < 100 ==> two_wide(n, '0').len() == 2 && two_wide(n, ' ').len() == 2,
{
    law_decimal_reads_back(n);
    law_decimal_is_one_of_a_kind(n, n);
    let none = Seq::<char>::empty();
    assert forall|k: int| 0 <= k < decimal(n).len() implies !white_space(decimal(n)[k]) by {
        assert(is_digit(decimal(n)[k]));
    }
    if n < 10 {
        reveal_with_fuel(digits_value, 3);
        let wide = two_wide(n, '0');
        assert(wide.drop_last() =~= seq!['0']);
        assert(wide.drop_last().drop_last() =~= none);
        law_white_space_around_is_trimmed(seq![' '], decimal(n), none);
        assert(seq![' '] + decimal(n) + none =~= two_wide(n, ' '));
    } else {
        law_white_space_around_is_trimmed(none, decimal(n), none);
        assert(none + decimal(n) + none =~= two_wide(n, ' '));
        if n < 100 {
            law_decimal_is_one_of_a_kind(n / 10, n / 10);
        }
    }
}

/// Lowering changes the ASCII capitals, each to its small letter, and nothing else; two texts
/// that differ in such letters only are lowered to the same.
pub proof fn law_lowering_changes_capitals_only(s: Seq<char>, k: int)
    requires
        0 <= k < s.len(),
    ensures
        lowered(s).len() == s.len(),
        'A' <= s[k] <= 'Z' ==> 'a' <= lowered(s)[k] <= 'z' && lowered(s)[k] as u32 - 'a' as u32
            == s[k] as u32 - 'A' as u32,
        !('A' <= s[k] <= 'Z') ==> lowered(s)[k] == s[k],
        lowered(lowered(s)) == lowered(s),
{
    assert forall|i: int| 0 <= i < s.len() implies lower_char(lower_char(s[i])) == lower_char(
        s[i],
    ) by {}
    assert(lowered(lowered(s)) =~= lowered(s));
}

/// An address is the host, a colon, and digits that stand for the port; so addresses are the same
/// only where hosts and ports are.
pub proof fn law_address_reads_back(host: Seq<char>, port: u16, other_host: Seq<char>, other: u16)
    ensures
        address(host, port).take(host.len() as int) == host,
        address(host, port)[host.len() as int] == ':',
        all_digits(address(host, port).skip(host.len() + 1int)),
        digits_value(address(host, port).skip(host.len() + 1int)) == port,
        last_index(address(host, port), ':') == Some(host.len() as int),
        address(host, port) == address(other_host, other) ==> host == other_host && port == other,
{
    lemma_address_parts(host, port);
    lemma_address_parts(other_host, other);
}

proof fn lemma_address_parts(host: Seq<char>, port: u16)
    ensures
        address(host, port).take(host.len() as int) == host,
        address(host, port)[host.len() as int] == ':',
        all_digits(address(host, port).skip(host.len() + 1int)),
        digits_value(address(host, port).skip(host.len() + 1int)) == port,
        last_index(address(host, port), ':') == Some(host.len() as int),
{
    reveal_strlit(":");
    let whole = address(host, port);
    let digits = decimal(port as nat);
    law_decimal_reads_back(port as nat);
    assert(whole.take(host.len() as int) =~= host);
    assert(whole.skip(host.len() + 1int) =~= digits);
    assert forall|k: int| host.len() < k < whole.len() implies whole[k] != ':' by {
        assert(whole[k] == digits[k - host.len() - 1]);
        assert(is_digit(digits[k - host.len() - 1]));
    }
    lemma_last_index(whole, ':', host.len() as int);
}

/// Behind a letter, a digit, a point, a hyphen or an underscore an address is a part of a longer
/// host, and before another digit it has a longer port: there it does not stand as a whole.
pub proof fn law_parts_of_longer_addresses_do_not_stand(
    before: Seq<char>,
    c: char,
    address: Seq<char>,
    after: Seq<char>,
)
    ensures
        ({
            let hay = before.push(c) + address + after;
            let i = before.len() + 1int;
            let joins = ('a' <= c <= 'z') || ('A' <= c <= 'Z') || ('0' <= c <= '9') || c == '.' || c
                == '-' || c == '_';
            let longer = after.len() > 0 && '0' <= after[0] <= '9';
            &&& joins || longer ==> !stands_at(hay, address, i)
            &&& !joins && !longer ==> stands_at(hay, address, i) && names_address(hay, address)
        }),
{
    let hay = before.push(c) + address + after;
    let i = before.len() + 1int;
    assert(hay[i - 1] == c);
    assert(hay.subrange(i, i + address.len()) =~= address);
    if after.len() > 0 {
        assert(hay[i + address.len()] == after[0]);
    }
}

/// Texts are found where they stand, and nowhere else: a text contains another exactly where it
/// can be cut around it.
pub proof fn law_contained_text_can_be_cut_out(before: Seq<char>, s: Seq<char>, after: Seq<char>)
    ensures
        contains(before + s + after, s),
        occurs_at(before + s + after, s, before.len() as int),
        starts_with(s + after, s),
        forall|i: int| #[trigger]
            occurs_at(before, s, i) ==> before == before.take(i) + s + before.skip(i + s.len()),
        s.len() > before.len() ==> !contains(before, s),
{
    let whole = before + s + after;
    let n = before.len() as int;
    assert(whole.subrange(n, n + s.len()) =~= s);
    assert(occurs_at(whole, s, n));
    assert((s + after).subrange(0, s.len() as int) =~= s);
    assert forall|i: int| #[trigger] occurs_at(before, s, i) implies before == before.take(i) + s
        + before.skip(i + s.len()) by {
        assert(before.subrange(i, i + s.len()) == s);
        assert(before =~= before.take(i) + before.subrange(i, i + s.len()) + before.skip(
            i + s.len(),
        ));
    }
}

} // verus!
