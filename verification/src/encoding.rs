//! Text as UTF-8 bytes and as UTF-16 code units.

use vstd::prelude::*;
use vstd::slice::*;
use vstd::string::*;
use vstd::utf8::*;

use crate::text::chars_of;

verus! {

/// The text that `String::from_utf8_lossy` makes of `bytes`.
pub uninterp spec fn utf8_lossy(bytes: Seq<u8>) -> Seq<char>;

/// Calls `String::from_utf8`: the bytes are accepted where they are valid UTF-8, and the text is
/// then what they encode.
#[verifier::external_body]
pub(crate) fn utf8_text(bytes: Vec<u8>) -> (text: Option<String>)
    ensures
        text is Some <==> valid_utf8(bytes@),
        text is Some ==> text->0@ == decode_utf8(bytes@),
{
    String::from_utf8(bytes).ok()
}

/// Calls `String::from_utf8_lossy`: the text is a function of the bytes, and valid UTF-8 comes out
/// as what it encodes. Where invalid bytes are replaced, which of them share one replacement
/// character is not said here.
#[verifier::external_body]
pub(crate) fn lossy_text(bytes: &[u8]) -> (text: String)
    ensures
        text@ == utf8_lossy(bytes@),
        valid_utf8(bytes@) ==> text@ == decode_utf8(bytes@),
{
    String::from_utf8_lossy(bytes).into_owned()
}

/// Whether a code unit is one half of a surrogate pair.
pub open spec fn is_surrogate(unit: u16) -> bool {
    0xd800 <= unit <= 0xdfff
}

/// Whether two code units make a surrogate pair.
pub open spec fn is_pair(first: u16, second: u16) -> bool {
    0xd800 <= first <= 0xdbff && 0xdc00 <= second <= 0xdfff
}

/// The character of a surrogate pair.
pub open spec fn pair_char(first: u16, second: u16) -> char {
    (0x1_0000 + (first - 0xd800) * 0x400 + (second - 0xdc00)) as char
}

/// The text of UTF-16 code units, with U+FFFD for each surrogate that has no partner.
pub open spec fn utf16_text(units: Seq<u16>) -> Seq<char>
    decreases units.len(),
{
    if units.len() == 0 {
        seq![]
    } else if !is_surrogate(units[0]) {
        seq![units[0] as char] + utf16_text(units.skip(1))
    } else if units.len() > 1 && is_pair(units[0], units[1]) {
        seq![pair_char(units[0], units[1])] + utf16_text(units.skip(2))
    } else {
        seq!['\u{fffd}'] + utf16_text(units.skip(1))
    }
}

/// The code units of one character.
pub open spec fn char_units(c: char) -> Seq<u16> {
    let n = c as u32;
    if n < 0x1_0000 {
        seq![n as u16]
    } else {
        seq![(0xd800 + (n - 0x1_0000) / 0x400) as u16, (0xdc00 + (n - 0x1_0000) % 0x400) as u16]
    }
}

/// The UTF-16 code units of a text.
pub open spec fn utf16_units(text: Seq<char>) -> Seq<u16>
    decreases text.len(),
{
    if text.len() == 0 {
        seq![]
    } else {
        char_units(text[0]) + utf16_units(text.skip(1))
    }
}

/// Calls `String::from_utf16_lossy`: surrogate pairs become one character, a surrogate without a
/// partner becomes U+FFFD, and every other unit is a character by itself.
#[verifier::external_body]
pub(crate) fn wide_text(units: &[u16]) -> (text: String)
    ensures
        text@ == utf16_text(units@),
{
    String::from_utf16_lossy(units)
}

/// The UTF-16 code units of a text, with a NUL behind them.
pub fn wide_host(host: &str) -> (units: Vec<u16>)
    ensures
        units@ == utf16_units(host@).push(0),
{
    let chars = chars_of(host);
    let mut units: Vec<u16> = Vec::new();
    let mut i: usize = 0;
    assert(chars@.skip(0) == chars@);
    while i < chars.len()
        invariant
            i <= chars.len(),
            units@ + utf16_units(chars@.skip(i as int)) == utf16_units(chars@),
        decreases chars.len() - i,
    {
        let ghost before = units@;
        let n = chars[i] as u32;
        if n < 0x1_0000 {
            units.push(n as u16);
        } else {
            units.push((0xd800 + (n - 0x1_0000) / 0x400) as u16);
            units.push((0xdc00 + (n - 0x1_0000) % 0x400) as u16);
        }
        assert(units@ == before + char_units(chars@[i as int]));
        assert(chars@.skip(i as int).skip(1) == chars@.skip(i + 1));
        assert(units@ + utf16_units(chars@.skip(i + 1)) == before + utf16_units(
            chars@.skip(i as int),
        ));
        i = i + 1;
    }
    units.push(0);
    units
}

/// The bytes of a text, with a NUL behind them; where the text itself holds a NUL, its place.
pub fn ansi_host(host: &str) -> (bytes: Result<Vec<u8>, usize>)
    ensures
        match bytes {
            Ok(b) => !encode_utf8(host@).contains(0) && b@ == encode_utf8(host@).push(0),
            Err(at) => {
                &&& at < encode_utf8(host@).len()
                &&& encode_utf8(host@)[at as int] == 0
                &&& !encode_utf8(host@).take(at as int).contains(0)
            },
        },
{
    let bytes = host.as_bytes();
    let mut i: usize = 0;
    while i < bytes.len()
        invariant
            i <= bytes.len(),
            bytes@ == encode_utf8(host@),
            forall|j: int| 0 <= j < i ==> bytes@[j] != 0,
        decreases bytes.len() - i,
    {
        if bytes[i] == 0 {
            return Err(i);
        }
        i = i + 1;
    }
    let mut ansi = slice_to_vec(bytes);
    ansi.push(0);
    Ok(ansi)
}

/// Whether enough of a NUL-terminated string of at most `max_units` is there to be read.
pub open spec fn wide_complete(units: Seq<u16>, max_units: int) -> bool {
    units.len() >= max_units || units.contains(0)
}

/// How many units stand before the first NUL.
pub open spec fn wide_len(units: Seq<u16>) -> int
    decreases units.len(),
{
    if units.len() == 0 || units[0] == 0 {
        0
    } else {
        1 + wide_len(units.skip(1))
    }
}

fn units_before_nul(units: &[u16]) -> (len: usize)
    ensures
        len == wide_len(units@),
        len <= units@.len(),
        units@.contains(0) <==> len < units@.len(),
{
    let mut len: usize = 0;
    assert(units@.skip(0) == units@);
    while len < units.len()
        invariant
            len <= units.len(),
            wide_len(units@) == len + wide_len(units@.skip(len as int)),
            forall|j: int| 0 <= j < len ==> units@[j] != 0,
        decreases units.len() - len,
    {
        if units[len] == 0 {
            assert(units@.skip(len as int)[0] == 0);
            return len;
        }
        assert(units@.skip(len as int).skip(1) == units@.skip(len + 1));
        len = len + 1;
    }
    len
}

/// Whether another unit of a string of at most `max_units` is to be fetched.
pub fn wants_wide_unit(units: &[u16], max_units: usize) -> (wanted: bool)
    ensures
        wanted == !wide_complete(units@, max_units as int),
{
    units.len() < max_units && units_before_nul(units) == units.len()
}

/// The text of a NUL-terminated string, unless it has no NUL among its first `max_units`.
pub fn read_wide_string(units: &[u16], max_units: usize) -> (text: Option<String>)
    requires
        wide_complete(units@, max_units as int),
    ensures
        text is Some <==> wide_len(units@) < max_units,
        text is Some ==> text->0@ == utf16_text(units@.take(wide_len(units@))),
{
    let len = units_before_nul(units);
    if len < max_units {
        Some(wide_text(slice_subrange(units, 0, len)))
    } else {
        None
    }
}

/// The code units of a character decode to it, and only NUL has a unit that is zero.
proof fn lemma_char_units(c: char)
    ensures
        (c as u32) < 0x1_0000 ==> !is_surrogate(char_units(c)[0]) && char_units(c)[0] as char == c,
        (c as u32) >= 0x1_0000 ==> {
            &&& is_pair(char_units(c)[0], char_units(c)[1])
            &&& pair_char(char_units(c)[0], char_units(c)[1]) == c
        },
        c != '\0' ==> forall|i: int|
            0 <= i < char_units(c).len() ==> #[trigger] char_units(c)[i] != 0,
{
    char_is_scalar(c);
}

/// Decoding gives back what was encoded.
pub proof fn utf16_round_trip(text: Seq<char>)
    ensures
        utf16_text(utf16_units(text)) == text,
    decreases text.len(),
{
    if text.len() > 0 {
        let units = utf16_units(text);
        let rest = utf16_units(text.skip(1));
        utf16_round_trip(text.skip(1));
        lemma_char_units(text[0]);
        if (text[0] as u32) < 0x1_0000 {
            assert(units.skip(1) == rest);
        } else {
            assert(units.skip(2) == rest);
        }
        assert(seq![text[0]] + text.skip(1) == text);
    }
}

/// A host without a NUL in it reads back, as a wide string, as itself.
pub proof fn wide_host_reads_back(host: Seq<char>, max_units: int)
    requires
        !host.contains('\0'),
        utf16_units(host).len() < max_units,
    ensures
        wide_complete(utf16_units(host).push(0), max_units),
        wide_len(utf16_units(host).push(0)) == utf16_units(host).len(),
        utf16_text(utf16_units(host).push(0).take(wide_len(utf16_units(host).push(0)))) == host,
{
    let units = utf16_units(host);
    assert(units.push(0)[units.len() as int] == 0);
    lemma_units_hold_no_nul(host);
    lemma_len_before_nul(units);
    assert(units.push(0).take(units.len() as int) == units);
    utf16_round_trip(host);
}

proof fn lemma_units_hold_no_nul(text: Seq<char>)
    requires
        !text.contains('\0'),
    ensures
        forall|i: int| 0 <= i < utf16_units(text).len() ==> #[trigger] utf16_units(text)[i] != 0,
    decreases text.len(),
{
    if text.len() > 0 {
        assert(text[0] != '\0');
        lemma_char_units(text[0]);
        assert(!text.skip(1).contains('\0'));
        lemma_units_hold_no_nul(text.skip(1));
        let head = char_units(text[0]);
        let rest = utf16_units(text.skip(1));
        assert forall|i: int| 0 <= i < utf16_units(text).len() implies #[trigger] utf16_units(
            text,
        )[i] != 0 by {
            if i < head.len() {
                assert(utf16_units(text)[i] == head[i]);
            } else {
                assert(utf16_units(text)[i] == rest[i - head.len()]);
            }
        }
    }
}

proof fn lemma_len_before_nul(units: Seq<u16>)
    requires
        forall|i: int| 0 <= i < units.len() ==> #[trigger] units[i] != 0,
    ensures
        wide_len(units.push(0)) == units.len(),
    decreases units.len(),
{
    if units.len() > 0 {
        assert(units.push(0).skip(1) == units.skip(1).push(0));
        lemma_len_before_nul(units.skip(1));
    }
}

/// Whether code units are those of a character: its own number, or a high and a low surrogate that
/// give ten bits each of what it is above 0xffff.
pub open spec fn encodes(units: Seq<u16>, c: char) -> bool {
    ||| c as int <= 0xffff && units.len() == 1 && units[0] as int == c as int
    ||| {
        &&& units.len() == 2
        &&& 0xd800 <= units[0] <= 0xdbff
        &&& 0xdc00 <= units[1] <= 0xdfff
        &&& c as int == 0x1_0000 + (units[0] - 0xd800) * 1024 + (units[1] - 0xdc00)
    }
}

/// The code units of a text are those of its characters, one after the other.
pub proof fn texts_are_encoded_by_character(front: Seq<char>, c: char, back: Seq<char>)
    ensures
        utf16_units(front + back) == utf16_units(front) + utf16_units(back),
        encodes(utf16_units(seq![c]), c),
    decreases front.len(),
{
    lemma_char_units(c);
    let one = seq![c];
    assert(one.skip(1).len() == 0);
    assert(utf16_units(one.skip(1)).len() == 0);
    assert(utf16_units(one) == char_units(c));
    char_is_scalar(c);
    if front.len() == 0 {
        assert(front + back == back);
        assert(utf16_units(front) + utf16_units(back) == utf16_units(back));
    } else {
        texts_are_encoded_by_character(front.skip(1), c, back);
        assert((front + back)[0] == front[0]);
        assert((front + back).skip(1) == front.skip(1) + back);
        assert(utf16_units(front + back) == utf16_units(front) + utf16_units(back));
    }
}

/// Code units decode by character: the units of a text to that text, and a surrogate without a
/// partner to U+FFFD, whatever stands behind them.
pub proof fn units_are_decoded_by_character(text: Seq<char>, unit: u16, rest: Seq<u16>)
    ensures
        utf16_text(utf16_units(text) + rest) == text + utf16_text(rest),
        0xd800 <= unit <= 0xdfff && !(unit <= 0xdbff && rest.len() > 0 && 0xdc00 <= rest[0]
            <= 0xdfff) ==> utf16_text(seq![unit] + rest) == seq!['\u{fffd}'] + utf16_text(rest),
        utf16_text(seq![]) == Seq::<char>::empty(),
    decreases text.len(),
{
    let units = seq![unit] + rest;
    assert(units.skip(1) == rest);
    if rest.len() > 0 {
        assert(units[1] == rest[0]);
    }
    if text.len() == 0 {
        assert(utf16_units(text) + rest == rest);
        assert(text + utf16_text(rest) == utf16_text(rest));
    } else {
        let all = utf16_units(text) + rest;
        let back = utf16_units(text.skip(1)) + rest;
        units_are_decoded_by_character(text.skip(1), unit, rest);
        lemma_char_units(text[0]);
        if (text[0] as u32) < 0x1_0000 {
            assert(all.skip(1) == back);
        } else {
            assert(all.skip(2) == back);
        }
        assert(text + utf16_text(rest) == seq![text[0]] + (text.skip(1) + utf16_text(rest)));
    }
}

/// A string ends at its first NUL, or with what is there of it.
pub proof fn strings_end_at_the_first_nul(units: Seq<u16>, rest: Seq<u16>, max_units: int)
    requires
        forall|i: int| 0 <= i < units.len() ==> #[trigger] units[i] != 0,
    ensures
        wide_len(units + seq![0u16] + rest) == units.len(),
        wide_len(units) == units.len(),
        wide_complete(units + seq![0u16] + rest, max_units),
        wide_complete(units, max_units) <==> units.len() >= max_units,
    decreases units.len(),
{
    let all = units + seq![0u16] + rest;
    assert(all[units.len() as int] == 0);
    if units.len() > 0 {
        assert(all[0] == units[0]);
        assert(all.skip(1) == units.skip(1) + seq![0u16] + rest);
        strings_end_at_the_first_nul(units.skip(1), rest, max_units);
    }
}

/// A text without a NUL in it has no code unit that is zero.
pub proof fn texts_without_nul_have_no_zero_unit(text: Seq<char>)
    requires
        !text.contains('\0'),
    ensures
        forall|i: int| 0 <= i < utf16_units(text).len() ==> #[trigger] utf16_units(text)[i] != 0,
{
    lemma_units_hold_no_nul(text);
}

}
