//! The word that undoes the protection of a system routine.

use vstd::prelude::*;
use vstd::string::*;

verus! {

/// The first word of a stub with the byte behind its low half cleared, and over the high half one
/// less than `offset`.
pub open spec fn restored(word: u64, offset: u32) -> u64 {
    let before: u64 = if offset == 0 {
        u64::MAX
    } else {
        (offset - 1) as u64
    };
    (word & 0xffff_ff00_ffff_ffff) | (before << 32)
}

/// The routine out of whose first word that of `NtProtectVirtualMemory` is made, by whether the
/// process runs under Wine.
pub fn next_routine(wine: bool) -> (name: &'static str)
    ensures
        name@ == if wine {
            "NtPulseEvent"@
        } else {
            "NtQuerySection"@
        },
{
    if wine {
        "NtPulseEvent"
    } else {
        "NtQuerySection"
    }
}

/// The first word of a system routine, made out of that of the routine behind it: `word` is the
/// first word of that one, and `offset` its high half.
pub fn disable_memory_protection(word: u64, offset: u32) -> (restored_word: u64)
    ensures
        restored_word == restored(word, offset),
{
    let lower = word & !(0xffu64 << 32);
    let upper = (offset as u64).wrapping_sub(1) << 32;
    assert(!(0xffu64 << 32) == 0xffff_ff00_ffff_ffff) by (bit_vector);
    lower | upper
}

/// Where the routines are numbered in one byte, the word differs from that of the routine behind it
/// in the number alone, which is one less.
pub proof fn restored_number_is_one_less(word: u64)
    requires
        (word >> 32) & 0xff != 0,
    ensures
        restored(word, (word >> 32) as u32) == word - 0x1_0000_0000,
{
    let offset = (word >> 32) as u32;
    assert(offset != 0 && ((word & 0xffff_ff00_ffff_ffff) | (((offset - 1) as u64) << 32)) == word
        - 0x1_0000_0000) by (bit_vector)
        requires
            offset == (word >> 32) as u32,
            (word >> 32) & 0xff != 0,
    ;
}

/// The low half of the word stays as it is, and in the high half the number before `offset` is
/// joined to what is left of it without its lowest byte.
pub proof fn restored_word_keeps_its_low_half(word: u64, offset: u32)
    ensures
        restored(word, offset) & 0xffff_ffff == word & 0xffff_ffff,
        offset > 0 ==> restored(word, offset) >> 32 == ((word >> 32) & 0xffff_ff00) | ((offset
            - 1) as u64),
        offset == 0 ==> restored(word, offset) >> 32 == 0xffff_ffff,
{
    if offset == 0 {
        assert(((word & 0xffff_ff00_ffff_ffff) | (0xffff_ffff_ffff_ffffu64 << 32)) & 0xffff_ffff
            == word & 0xffff_ffff) by (bit_vector);
        assert(((word & 0xffff_ff00_ffff_ffff) | (0xffff_ffff_ffff_ffffu64 << 32)) >> 32
            == 0xffff_ffff) by (bit_vector);
    } else {
        let before = (offset - 1) as u64;
        assert(((word & 0xffff_ff00_ffff_ffff) | (before << 32)) & 0xffff_ffff == word
            & 0xffff_ffff) by (bit_vector);
        assert(((word & 0xffff_ff00_ffff_ffff) | (before << 32)) >> 32 == ((word >> 32)
            & 0xffff_ff00) | before) by (bit_vector)
            requires
                before <= 0xffff_ffff,
        ;
    }
}

}
