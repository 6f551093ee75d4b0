//! Text as sequences of characters: searching, ASCII case, and numbers in decimal and hex.

use vstd::prelude::*;
use vstd::string::*;

verus! {

/// The lower-case form of an ASCII letter; every other character is its own.
pub open spec fn lower(c: char) -> char {
    if 'A' <= c <= 'Z' {
        (c as u32 + 32) as char
    } else {
        c
    }
}

/// `s` with its ASCII letters in lower case.
pub open spec fn lowered(s: Seq<char>) -> Seq<char> {
    Seq::new(s.len(), |i: int| lower(s[i]))
}

/// What is left of `s` once every `c` at its end is gone.
pub open spec fn without_trailing(s: Seq<char>, c: char) -> Seq<char>
    decreases s.len(),
{
    if s.len() > 0 && s.last() == c {
        without_trailing(s.drop_last(), c)
    } else {
        s
    }
}

/// Whether `part` stands in `s` at index `at`.
pub open spec fn stands_at<T>(s: Seq<T>, part: Seq<T>, at: int) -> bool {
    0 <= at && at + part.len() <= s.len() && s.subrange(at, at + part.len()) == part
}

/// Whether `s` ends with `tail`.
pub open spec fn ends_with(s: Seq<char>, tail: Seq<char>) -> bool {
    stands_at(s, tail, s.len() - tail.len())
}

/// Index of the first of `stops` in `s`, or the length of `s` where it holds none of them.
pub open spec fn first_of(s: Seq<char>, stops: Seq<char>) -> int
    decreases s.len(),
{
    if s.len() == 0 || stops.contains(s[0]) {
        0
    } else {
        1 + first_of(s.drop_first(), stops)
    }
}

/// Index of the last `c` in `s`, or -1 where there is none.
pub open spec fn last_of(s: Seq<char>, c: char) -> int
    decreases s.len(),
{
    if s.len() == 0 || s.last() == c {
        s.len() - 1
    } else {
        last_of(s.drop_last(), c)
    }
}

/// Index at or after `from` of the first place where `part` stands in `s`.
pub open spec fn find_from<T>(s: Seq<T>, part: Seq<T>, from: int) -> Option<int>
    decreases s.len() - from,
{
    if !(0 <= from < s.len()) || from + part.len() > s.len() {
        None
    } else if stands_at(s, part, from) {
        Some(from)
    } else {
        find_from(s, part, from + 1)
    }
}

/// Index of the first place where `part` stands in `s`.
pub open spec fn find<T>(s: Seq<T>, part: Seq<T>) -> Option<int> {
    find_from(s, part, 0)
}

/// The characters of `s`.
pub fn chars_of(s: &str) -> (chars: Vec<char>)
    ensures
        chars@ == s@,
{
    let mut chars: Vec<char> = Vec::new();
    for c in it: s.chars()
        invariant
            chars@ == s@.take(it.index()),
            it.seq() == s@,
    {
        chars.push(c);
    }
    chars
}

pub fn lower_char(c: char) -> (l: char)
    ensures
        l == lower(c),
{
    if 'A' <= c && c <= 'Z' {
        ((c as u8) + 32) as char
    } else {
        c
    }
}

/// The digit that stands for `n` below 16.
pub open spec fn digit(n: int) -> char {
    if n < 10 {
        ('0' as u32 + n) as char
    } else {
        ('a' as u32 + n - 10) as char
    }
}

/// `n` in decimal, without leading zeros.
pub open spec fn decimal(n: nat) -> Seq<char>
    decreases n,
{
    if n < 10 {
        seq![digit(n as int)]
    } else {
        decimal(n / 10).push(digit((n % 10) as int))
    }
}

/// The two lower-case hex digits of each byte, one byte after the other.
pub open spec fn hex(bytes: Seq<u8>) -> Seq<char>
    decreases bytes.len(),
{
    if bytes.len() == 0 {
        seq![]
    } else {
        hex(bytes.drop_last()) + seq![digit(bytes.last() as int / 16), digit(bytes.last() as int % 16)]
    }
}

fn digit_text(n: u8) -> (text: &'static str)
    requires
        n < 16,
    ensures
        text@ == seq![digit(n as int)],
{
    proof {
        reveal_strlit("0");
        reveal_strlit("1");
        reveal_strlit("2");
        reveal_strlit("3");
        reveal_strlit("4");
        reveal_strlit("5");
        reveal_strlit("6");
        reveal_strlit("7");
        reveal_strlit("8");
        reveal_strlit("9");
        reveal_strlit("a");
        reveal_strlit("b");
        reveal_strlit("c");
        reveal_strlit("d");
        reveal_strlit("e");
        reveal_strlit("f");
    }
    match n {
        0 => "0",
        1 => "1",
        2 => "2",
        3 => "3",
        4 => "4",
        5 => "5",
        6 => "6",
        7 => "7",
        8 => "8",
        9 => "9",
        10 => "a",
        11 => "b",
        12 => "c",
        13 => "d",
        14 => "e",
        _ => "f",
    }
}

/// Adds `n` in decimal to the end of `text`.
pub fn append_decimal(text: &mut String, n: u128)
    ensures
        final(text)@ == old(text)@ + decimal(n as nat),
    decreases n,
{
    if n >= 10 {
        append_decimal(text, n / 10);
    }
    text.append(digit_text((n % 10) as u8));
}

/// The bytes of a prefix in hex, as diagnostics show them.
pub fn hex_prefix(prefix: &[u8]) -> (text: String)
    ensures
        text@ == hex(prefix@),
{
    let mut text = String::new();
    let mut i: usize = 0;
    while i < prefix.len()
        invariant
            i <= prefix.len(),
            text@ == hex(prefix@.take(i as int)),
        decreases prefix.len() - i,
    {
        text.append(digit_text(prefix[i] / 16));
        text.append(digit_text(prefix[i] % 16));
        assert(prefix@.take(i + 1).drop_last() == prefix@.take(i as int));
        i = i + 1;
    }
    assert(prefix@.take(i as int) == prefix@);
    text
}

/// Whether `part` stands in `s` at index `at`.
pub(crate) fn holds_at(s: &Vec<char>, part: &Vec<char>, at: usize) -> (found: bool)
    ensures
        found == stands_at(s@, part@, at as int),
{
    if at > s.len() || part.len() > s.len() - at {
        return false;
    }
    let mut i: usize = 0;
    while i < part.len()
        invariant
            i <= part.len(),
            at + part.len() <= s.len(),
            forall|j: int| 0 <= j < i ==> s@[at + j] == part@[j],
        decreases part.len() - i,
    {
        if s[at + i] != part[i] {
            assert(s@.subrange(at as int, at + part.len())[i as int] != part@[i as int]);
            return false;
        }
        i = i + 1;
    }
    assert(s@.subrange(at as int, at + part.len()) == part@);
    true
}

/// Index of the first of `stops` in `s` within a range, or the end of the range.
pub(crate) fn index_of_first(s: &Vec<char>, stops: &Vec<char>, from: usize, to: usize) -> (at: usize)
    requires
        from <= to <= s.len(),
    ensures
        from <= at <= to,
        at == from + first_of(s@.subrange(from as int, to as int), stops@),
{
    let mut i: usize = from;
    while i < to
        invariant
            from <= i <= to <= s.len(),
            from + first_of(s@.subrange(from as int, to as int), stops@) == i + first_of(
                s@.subrange(i as int, to as int),
                stops@,
            ),
        decreases to - i,
    {
        if char_among(s[i], stops) {
            return i;
        }
        assert(s@.subrange(i as int, to as int).drop_first() == s@.subrange(i + 1, to as int));
        i = i + 1;
    }
    i
}

fn char_among(c: char, stops: &Vec<char>) -> (found: bool)
    ensures
        found == stops@.contains(c),
{
    let mut i: usize = 0;
    while i < stops.len()
        invariant
            i <= stops.len(),
            forall|j: int| 0 <= j < i ==> stops@[j] != c,
        decreases stops.len() - i,
    {
        if stops[i] == c {
            return true;
        }
        i = i + 1;
    }
    false
}

/// Index behind the last `c` in `s` within a range, or the start of the range.
pub(crate) fn index_after_last(s: &Vec<char>, c: char, from: usize, to: usize) -> (after: usize)
    requires
        from <= to <= s.len(),
    ensures
        from <= after <= to,
        after == from + last_of(s@.subrange(from as int, to as int), c) + 1,
{
    let mut i: usize = to;
    while i > from
        invariant
            from <= i <= to <= s.len(),
            last_of(s@.subrange(from as int, to as int), c) == last_of(
                s@.subrange(from as int, i as int),
                c,
            ),
        decreases i,
    {
        if s[i - 1] == c {
            return i;
        }
        assert(s@.subrange(from as int, i as int).drop_last() == s@.subrange(from as int, i - 1));
        i = i - 1;
    }
    i
}

/// Index of the first place where `part` stands in `s`.
pub(crate) fn position(s: &Vec<char>, part: &Vec<char>) -> (at: Option<usize>)
    requires
        part.len() > 0,
    ensures
        at is Some <==> find(s@, part@) is Some,
        at is Some ==> at->0 == find(s@, part@)->0 && stands_at(s@, part@, at->0 as int),
{
    let mut i: usize = 0;
    while i < s.len() && part.len() <= s.len() - i
        invariant
            i <= s.len(),
            find(s@, part@) == find_from(s@, part@, i as int),
        decreases s.len() - i,
    {
        if holds_at(s, part, i) {
            return Some(i);
        }
        i = i + 1;
    }
    None
}

/// `s` in lower case, without the dots at its end.
pub(crate) fn lowered_without_dots(s: &Vec<char>, from: usize, to: usize) -> (name: Vec<char>)
    requires
        from <= to <= s.len(),
    ensures
        name@ == lowered(without_trailing(s@.subrange(from as int, to as int), '.')),
{
    let mut end: usize = to;
    while end > from && s[end - 1] == '.'
        invariant
            from <= end <= to <= s.len(),
            without_trailing(s@.subrange(from as int, to as int), '.') == without_trailing(
                s@.subrange(from as int, end as int),
                '.',
            ),
        decreases end,
    {
        assert(s@.subrange(from as int, end as int).drop_last() == s@.subrange(
            from as int,
            end - 1,
        ));
        end = end - 1;
    }
    lowered_chars(s, from, end)
}

/// A range of `s` in lower case.
pub(crate) fn lowered_chars(s: &Vec<char>, from: usize, to: usize) -> (chars: Vec<char>)
    requires
        from <= to <= s.len(),
    ensures
        chars@ == lowered(s@.subrange(from as int, to as int)),
{
    let mut chars: Vec<char> = Vec::new();
    let mut i: usize = from;
    while i < to
        invariant
            from <= i <= to <= s.len(),
            chars@ == lowered(s@.subrange(from as int, to as int)).take(i - from),
        decreases to - i,
    {
        chars.push(lower_char(s[i]));
        i = i + 1;
    }
    chars
}

// Facts about searching.

/// The first place where `part` stands is found.
pub(crate) proof fn lemma_found<T>(s: Seq<T>, part: Seq<T>, from: int, at: int)
    requires
        0 <= from <= at,
        part.len() > 0,
        stands_at(s, part, at),
        forall|i: int| from <= i < at ==> !#[trigger] stands_at(s, part, i),
    ensures
        find_from(s, part, from) == Some(at),
    decreases at - from,
{
    if from < at {
        assert(!stands_at(s, part, from));
        lemma_found(s, part, from + 1, at);
    }
}

/// The first of `stops` stands at `at`.
pub(crate) proof fn lemma_first_of(s: Seq<char>, stops: Seq<char>, at: int)
    requires
        0 <= at <= s.len(),
        at < s.len() ==> stops.contains(s[at]),
        forall|i: int| 0 <= i < at ==> !stops.contains(#[trigger] s[i]),
    ensures
        first_of(s, stops) == at,
    decreases s.len(),
{
    if at > 0 {
        assert(!stops.contains(s[0]));
        assert forall|i: int| 0 <= i < at - 1 implies !stops.contains(
            #[trigger] s.drop_first()[i],
        ) by {
            assert(!stops.contains(s[i + 1]));
        }
        lemma_first_of(s.drop_first(), stops, at - 1);
    }
}

/// The last `c` stands at `at`, or nowhere.
pub(crate) proof fn lemma_last_of(s: Seq<char>, c: char, at: int)
    requires
        -1 <= at < s.len(),
        at >= 0 ==> s[at] == c,
        forall|i: int| at < i < s.len() ==> #[trigger] s[i] != c,
    ensures
        last_of(s, c) == at,
    decreases s.len(),
{
    if at < s.len() - 1 {
        assert(s.last() != c);
        lemma_last_of(s.drop_last(), c, at);
    }
}

/// Lower case does not touch dots.
pub(crate) proof fn lemma_lowered_without_trailing(s: Seq<char>)
    ensures
        without_trailing(lowered(s), '.') == lowered(without_trailing(s, '.')),
    decreases s.len(),
{
    if s.len() > 0 && s.last() == '.' {
        assert(lowered(s).drop_last() == lowered(s.drop_last()));
        lemma_lowered_without_trailing(s.drop_last());
    }
}

/// Lower case is reached in one step.
pub(crate) proof fn lemma_lowered_twice(s: Seq<char>)
    ensures
        lowered(lowered(s)) == lowered(s),
{
}

// Laws.

/// Whether a text reads as another one that holds no upper-case letters: each of its characters is
/// the same, or is the upper-case form of an ASCII letter there.
pub open spec fn reads_as(s: Seq<char>, other: Seq<char>) -> bool {
    &&& s.len() == other.len()
    &&& forall|i: int|
        0 <= i < s.len() ==> (#[trigger] s[i] == other[i] || ('A' <= s[i] <= 'Z' && s[i] as int + 32
            == other[i] as int))
}

/// A text in lower case is another one exactly where it reads as that one.
pub proof fn lower_case_is_what_a_text_reads_as(s: Seq<char>, other: Seq<char>)
    requires
        forall|i: int| 0 <= i < other.len() ==> !('A' <= #[trigger] other[i] <= 'Z'),
    ensures
        lowered(s) == other <==> reads_as(s, other),
{
    if lowered(s) == other {
        assert forall|i: int| 0 <= i < s.len() implies (#[trigger] s[i] == other[i] || ('A' <= s[i]
            <= 'Z' && s[i] as int + 32 == other[i] as int)) by {
            assert(lowered(s)[i] == lower(s[i]));
        }
    }
    if reads_as(s, other) {
        assert forall|i: int| 0 <= i < s.len() implies #[trigger] lowered(s)[i] == other[i] by {
            let c = s[i];
            assert(c == other[i] || ('A' <= c <= 'Z' && c as int + 32 == other[i] as int));
        }
        assert(lowered(s) == other);
    }
}

/// What is left of a text is what stands before the run of a character at its end.
pub proof fn trailing_characters_are_dropped(front: Seq<char>, run: Seq<char>, c: char)
    requires
        front.len() > 0 ==> front.last() != c,
        forall|i: int| 0 <= i < run.len() ==> #[trigger] run[i] == c,
    ensures
        without_trailing(front + run, c) == front,
    decreases run.len(),
{
    if run.len() == 0 {
        assert(front + run == front);
    } else {
        assert((front + run).last() == c);
        assert((front + run).drop_last() == front + run.drop_last());
        trailing_characters_are_dropped(front, run.drop_last(), c);
    }
}

/// The first of some characters is found behind what holds none of them.
pub proof fn first_of_some_is_found(front: Seq<char>, rest: Seq<char>, stops: Seq<char>)
    requires
        forall|i: int, j: int|
            0 <= i < front.len() && 0 <= j < stops.len() ==> #[trigger] front[i]
                != #[trigger] stops[j],
        rest.len() > 0 ==> exists|j: int| 0 <= j < stops.len() && rest[0] == #[trigger] stops[j],
    ensures
        first_of(front + rest, stops) == front.len(),
{
    let s = front + rest;
    assert forall|i: int| 0 <= i < front.len() implies !stops.contains(#[trigger] s[i]) by {
        assert(s[i] == front[i]);
    }
    if rest.len() > 0 {
        assert(s[front.len() as int] == rest[0]);
    }
    lemma_first_of(s, stops, front.len() as int);
}

/// The last of a character is found before what holds none.
pub proof fn last_one_is_found(front: Seq<char>, rest: Seq<char>, c: char)
    requires
        front.len() > 0 ==> front.last() == c,
        forall|i: int| 0 <= i < rest.len() ==> #[trigger] rest[i] != c,
    ensures
        last_of(front + rest, c) == front.len() - 1,
{
    let s = front + rest;
    assert forall|i: int| front.len() <= i < s.len() implies #[trigger] s[i] != c by {
        assert(s[i] == rest[i - front.len()]);
    }
    if front.len() > 0 {
        assert(s[front.len() - 1] == front.last());
    }
    lemma_last_of(s, c, front.len() - 1);
}

/// Whether a part stands at a place, character by character.
pub open spec fn matches_at<T>(s: Seq<T>, part: Seq<T>, at: int) -> bool {
    &&& 0 <= at
    &&& at + part.len() <= s.len()
    &&& forall|i: int| 0 <= i < part.len() ==> s[at + i] == #[trigger] part[i]
}

proof fn lemma_matches<T>(s: Seq<T>, part: Seq<T>, at: int)
    ensures
        stands_at(s, part, at) == matches_at(s, part, at),
{
    if 0 <= at && at + part.len() <= s.len() {
        let here = s.subrange(at, (at + part.len()) as int);
        if here == part {
            assert forall|i: int| 0 <= i < part.len() implies s[at + i] == #[trigger] part[i] by {
                assert(here[i] == s[at + i]);
            }
        }
        if matches_at(s, part, at) {
            assert(here == part);
        }
    }
}

/// A part is found at the first place where it stands, and nowhere exactly where it stands nowhere.
pub proof fn first_place_is_found<T>(s: Seq<T>, part: Seq<T>, at: int)
    requires
        part.len() > 0,
    ensures
        find(s, part) == Some(at) <==> matches_at(s, part, at) && forall|i: int|
            0 <= i < at ==> !#[trigger] matches_at(s, part, i),
        find(s, part) is None <==> forall|i: int| !#[trigger] matches_at(s, part, i),
{
    lemma_search(s, part, 0);
    assert forall|i: int| stands_at(s, part, i) == #[trigger] matches_at(s, part, i) by {
        lemma_matches(s, part, i);
    }
    match find(s, part) {
        Some(found) => {
            assert(matches_at(s, part, found));
            if matches_at(s, part, at) && forall|i: int|
                0 <= i < at ==> !#[trigger] matches_at(s, part, i) {
                assert(at == found) by {
                    if at < found {
                        assert(!matches_at(s, part, at));
                    }
                }
            }
        },
        None => {},
    }
}

proof fn lemma_search<T>(s: Seq<T>, part: Seq<T>, from: int)
    requires
        part.len() > 0,
        0 <= from,
    ensures
        match find_from(s, part, from) {
            Some(found) => {
                &&& from <= found
                &&& stands_at(s, part, found)
                &&& forall|i: int| from <= i < found ==> !#[trigger] stands_at(s, part, i)
            },
            None => forall|i: int| from <= i ==> !#[trigger] stands_at(s, part, i),
        },
    decreases s.len() - from,
{
    if from < s.len() && from + part.len() <= s.len() && !stands_at(s, part, from) {
        lemma_search(s, part, from + 1);
    }
}

/// Whether a text is a number in decimal: digits, with no zero before others.
pub open spec fn is_numeral(text: Seq<char>) -> bool {
    &&& text.len() > 0
    &&& forall|i: int| 0 <= i < text.len() ==> '0' <= #[trigger] text[i] <= '9'
    &&& text.len() > 1 ==> text[0] != '0'
}

/// The number that digits stand for.
pub open spec fn value_of(digits: Seq<char>) -> int
    decreases digits.len(),
{
    if digits.len() == 0 {
        0
    } else {
        value_of(digits.drop_last()) * 10 + (digits.last() as int - '0' as int)
    }
}

/// A number is written as the one numeral that stands for it.
pub proof fn numbers_are_written_as_numerals(n: nat, text: Seq<char>)
    ensures
        text == decimal(n) <==> is_numeral(text) && value_of(text) == n,
{
    lemma_decimal_is_numeral(n);
    if is_numeral(text) && value_of(text) == n {
        lemma_numeral_is_decimal(text, n);
    }
}

proof fn lemma_decimal_is_numeral(n: nat)
    ensures
        is_numeral(decimal(n)),
        value_of(decimal(n)) == n,
        n > 0 ==> decimal(n)[0] != '0',
    decreases n,
{
    if n >= 10 {
        lemma_decimal_is_numeral(n / 10);
        assert(decimal(n).drop_last() == decimal(n / 10));
        assert(decimal(n)[0] == decimal(n / 10)[0]);
    } else {
        assert(decimal(n).drop_last().len() == 0);
        assert(value_of(decimal(n).drop_last()) == 0);
    }
}

proof fn lemma_value_is_positive(text: Seq<char>)
    requires
        text.len() > 0,
        forall|i: int| 0 <= i < text.len() ==> '0' <= #[trigger] text[i] <= '9',
        text[0] != '0',
    ensures
        value_of(text) >= 1,
    decreases text.len(),
{
    if text.len() > 1 {
        assert(text.drop_last()[0] == text[0]);
        lemma_value_is_positive(text.drop_last());
    } else {
        assert(value_of(text.drop_last()) == 0);
    }
}

proof fn lemma_numeral_is_decimal(text: Seq<char>, n: nat)
    requires
        is_numeral(text),
        value_of(text) == n,
    ensures
        text == decimal(n),
    decreases text.len(),
{
    let front = text.drop_last();
    let last = text.last();
    assert('0' <= last <= '9');
    if text.len() == 1 {
        assert(value_of(front) == 0);
        assert(text == decimal(n));
    } else {
        assert(front[0] == text[0]);
        lemma_value_is_positive(front);
        assert(n / 10 == value_of(front) && n % 10 == last as int - '0' as int);
        lemma_numeral_is_decimal(front, n / 10);
        assert(text == front.push(last));
    }
}

/// The number that a lower-case hex digit stands for.
pub open spec fn hex_value(c: char) -> int {
    if '0' <= c <= '9' {
        c as int - '0' as int
    } else if 'a' <= c <= 'f' {
        c as int - 'a' as int + 10
    } else {
        -1
    }
}

/// Whether two hex digits at a place in a text stand for a byte, the high one first.
pub open spec fn writes_byte(text: Seq<char>, at: int, byte: u8) -> bool {
    &&& 0 <= hex_value(text[at]) < 16
    &&& 0 <= hex_value(text[at + 1]) < 16
    &&& hex_value(text[at]) * 16 + hex_value(text[at + 1]) == byte
}

/// Bytes are written in two hex digits each.
pub proof fn bytes_are_written_as_two_hex_digits(bytes: Seq<u8>)
    ensures
        hex(bytes).len() == 2 * bytes.len(),
        forall|i: int|
            0 <= i < bytes.len() ==> writes_byte(hex(bytes), 2 * i, #[trigger] bytes[i]),
    decreases bytes.len(),
{
    if bytes.len() > 0 {
        let front = bytes.drop_last();
        bytes_are_written_as_two_hex_digits(front);
        assert forall|i: int| 0 <= i < bytes.len() implies writes_byte(
            hex(bytes),
            2 * i,
            #[trigger] bytes[i],
        ) by {
            if i < front.len() {
                assert(front[i] == bytes[i]);
                assert(hex(bytes)[2 * i] == hex(front)[2 * i]);
                assert(hex(bytes)[2 * i + 1] == hex(front)[2 * i + 1]);
            } else {
                let b = bytes.last() as int;
                assert(hex(bytes)[2 * i] == digit(b / 16));
                assert(hex(bytes)[2 * i + 1] == digit(b % 16));
            }
        }
    }
}

}
