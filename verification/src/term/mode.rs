//! Packed terminal mode identifiers: bits 0 to 14 hold the number, bit 15 says
//! whether the mode is an ANSI one or a DEC private one.
use vstd::prelude::*;

verus! {

/// DEC private mode 2004: bracketed paste.
pub const MODE_BRACKETED_PASTE: u16 = 2004;

/// The packed identifier of a mode. A number above 15 bits loses its top bit.
pub open spec fn packed_mode(value: u16, ansi: bool) -> int {
    (value % 0x8000) + (if ansi {
        0x8000int
    } else {
        0
    })
}

/// The number of a packed mode.
pub open spec fn mode_number(mode: u16) -> u16 {
    mode % 0x8000
}

/// Whether a packed mode is an ANSI one.
pub open spec fn mode_is_ansi(mode: u16) -> bool {
    mode >= 0x8000
}

/// The packed identifier of a mode. A number above 15 bits loses its top bit.
pub fn ghostty_mode_new(value: u16, ansi: bool) -> (r: u16)
    ensures
        r == packed_mode(value, ansi),
{
    let flag: u16 = if ansi {
        0x8000
    } else {
        0
    };
    assert((value & 0x7fff) | 0x8000 == (value % 0x8000) + 0x8000) by (bit_vector);
    assert((value & 0x7fff) | 0 == value % 0x8000) by (bit_vector);
    (value & 0x7fff) | flag
}

/// The number of a packed mode.
pub fn ghostty_mode_value(mode: u16) -> (r: u16)
    ensures
        r == mode_number(mode),
{
    assert(mode & 0x7fff == mode % 0x8000) by (bit_vector);
    mode & 0x7fff
}

/// Whether a packed mode is an ANSI one.
pub fn ghostty_mode_ansi(mode: u16) -> (r: bool)
    ensures
        r == mode_is_ansi(mode),
{
    assert((mode >> 15 != 0) == (mode >= 0x8000)) by (bit_vector);
    (mode >> 15) != 0
}

/// What is packed can be taken out again: the flag always, and the low 15 bits
/// of the number, which are the number itself where it has no more.
pub proof fn mode_round_trip(value: u16, ansi: bool, packed: u16)
    requires
        packed == packed_mode(value, ansi),
    ensures
        mode_number(packed) == value % 0x8000,
        value < 0x8000 ==> mode_number(packed) == value,
        mode_is_ansi(packed) == ansi,
{
}

/// Packing what was taken out of an identifier gives that identifier.
pub proof fn mode_repacks(mode: u16)
    ensures
        packed_mode(mode_number(mode), mode_is_ansi(mode)) == mode,
{
}

} // verus!
