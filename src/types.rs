use vstd::prelude::*;

verus! {

pub const BYTES: u8 = 0x0;
pub const BOOLEAN: u8 = 0x1;
pub const INT_POS: u8 = 0x2;
pub const INT_NEG: u8 = 0x3;
pub const FLOAT: u8 = 0x4;
pub const UTF8: u8 = 0x5;
pub const UTF8_SHORT: u8 = 0x6;
pub const UTC_DATE_TIME: u8 = 0x7;

pub const ARRAY: u8 = 0xA;
pub const TABLE: u8 = 0xB;
pub const OBJECT: u8 = 0xC;
pub const KEY: u8 = 0xD;
pub const KEY_SHORT: u8 = 0xE;
pub const EXTENDED: u8 = 0xF;

/// A value fits in a nibble: the four low bits of a byte.
pub open spec fn is_nibble(n: u8) -> bool {
    n <= 0xF
}

/// The header byte that carries `tag` in its upper nibble and `nibble` in its lower one.
pub open spec fn header(tag: u8, nibble: u8) -> u8
    recommends
        is_nibble(tag),
        is_nibble(nibble),
{
    (tag * 16 + nibble) as u8
}

/// The type tag of a header byte: its upper nibble.
pub fn get_type(byte: u8) -> (r: u8)
    ensures
        r == byte / 16,
        is_nibble(r),
{
    proof {
        assert(byte >> 4 == byte / 16) by (bit_vector);
    }
    byte >> 4
}

/// The tag and the nibble packed into a header byte can both be read back from it.
pub proof fn lemma_header_parts(tag: u8, nibble: u8)
    requires
        is_nibble(tag),
        is_nibble(nibble),
    ensures
        header(tag, nibble) / 16 == tag,
        header(tag, nibble) % 16 == nibble,
{
}

} // verus!
