//! The tint record of a sprite: its length, chosen by the bits of a tag, and
//! the color it resolves to.
//!
//! Colors are linear, four channels, kept as exact fractions: every channel
//! is a count of [`CHANNEL_ONE`]-ths, so that [`CHANNEL_ONE`] itself is 1.0.

use crate::map::cursor::{read_outcome, Cursor, DecodeError};
use vstd::prelude::*;

verus! {

/// The channel value that stands for 1.0.
pub const CHANNEL_ONE: i32 = 510;

/// A color in linear space. Each channel counts [`CHANNEL_ONE`]-ths.
#[derive(Debug, Clone, Copy, PartialEq, Eq, Structural)]
pub struct LinearColor {
    pub red: i32,
    pub green: i32,
    pub blue: i32,
    pub alpha: i32,
}

/// Opaque white: every channel at 1.0.
pub open spec fn opaque_white() -> LinearColor {
    LinearColor { red: 510, green: 510, blue: 510, alpha: 510 }
}

/// Whether any bit of `mask` is set in `tag`.
pub open spec fn has_flag(tag: u8, mask: u8) -> bool {
    tag & mask != 0
}

/// The length in bytes of the tint record that `tag` selects.
///
/// The bits 0x02 and 0x08 add three bytes and one byte; the bit 0x10 then
/// doubles what has been counted so far; the bits 0x01 and 0x04 add three
/// bytes each after that.
pub open spec fn spec_size_from_tag(tag: u8) -> nat {
    let early: nat = (if has_flag(tag, 0x02) { 3nat } else { 0nat }) + (if has_flag(tag, 0x08) {
        1nat
    } else {
        0nat
    });
    let doubled: nat = if has_flag(tag, 0x10) {
        2 * early
    } else {
        early
    };
    doubled + (if has_flag(tag, 0x01) { 3nat } else { 0nat }) + (if has_flag(tag, 0x04) {
        3nat
    } else {
        0nat
    })
}

/// The length in bytes of the tint record that `tag` selects.
pub fn size_from_tag(tag: u8) -> (size: usize)
    ensures
        size == spec_size_from_tag(tag),
        size <= 14,
{
    let mut n2: usize = 0;
    if (tag & 2) != 0 {
        n2 += 3
    }
    if (tag & 8) != 0 {
        n2 += 1
    }
    if (tag & 0x10) != 0 {
        n2 *= 2
    }
    if (tag & 1) != 0 {
        n2 += 3
    }
    if (tag & 4) != 0 {
        n2 += 3
    }
    n2
}

/// The byte `b` read as a two's complement number.
pub open spec fn signed_byte(b: u8) -> int {
    if b < 0x80 {
        b as int
    } else {
        b - 0x100
    }
}

/// The channel value of a signed byte: `v / 255 + 1 / 2`, in
/// [`CHANNEL_ONE`]-ths.
pub open spec fn spec_teint(v: i8) -> int {
    2 * v + 255
}

/// The channel value of a signed byte: `v / 255 + 1 / 2`, in
/// [`CHANNEL_ONE`]-ths.
pub fn teint(v: i8) -> (channel: i32)
    ensures
        channel == spec_teint(v),
{
    2 * (v as i32) + 255
}

/// The color that a tint record stands for, chosen by its length.
///
/// Four bytes are red, green, blue and alpha, each a signed byte mapped by
/// [`spec_teint`]; red, green and blue are doubled after that, alpha is not.
/// Three bytes are red, green and blue alone, and the color is opaque. A
/// record of any other length is opaque white.
pub open spec fn resolve_color(record: Seq<u8>) -> LinearColor {
    if record.len() == 4 {
        LinearColor {
            red: (2 * spec_teint(signed_byte(record[0]) as i8)) as i32,
            green: (2 * spec_teint(signed_byte(record[1]) as i8)) as i32,
            blue: (2 * spec_teint(signed_byte(record[2]) as i8)) as i32,
            alpha: spec_teint(signed_byte(record[3]) as i8) as i32,
        }
    } else if record.len() == 3 {
        LinearColor {
            red: (2 * spec_teint(signed_byte(record[0]) as i8)) as i32,
            green: (2 * spec_teint(signed_byte(record[1]) as i8)) as i32,
            blue: (2 * spec_teint(signed_byte(record[2]) as i8)) as i32,
            alpha: 510,
        }
    } else {
        opaque_white()
    }
}

/// The byte `b` read as a two's complement number.
fn to_signed(b: u8) -> (v: i8)
    ensures
        v == signed_byte(b),
{
    if b < 0x80 {
        b as i8
    } else {
        (b as i16 - 0x100) as i8
    }
}

/// The color table of one sprite. The format leaves room for several
/// entries; a record on the wire carries one.
pub struct Colors<'a> {
    table: Vec<&'a [u8]>,
}

impl<'a> View for Colors<'a> {
    type V = Seq<Seq<u8>>;

    closed spec fn view(&self) -> Seq<Seq<u8>> {
        self.table@.map_values(|entry: &[u8]| entry@)
    }
}

impl<'a> Colors<'a> {
    /// Reads the color table that `tag` announces: one entry of
    /// `size_from_tag(tag)` bytes, which may be empty.
    pub fn try_read(cursor: &mut Cursor<'a>, tag: u8) -> (r: Result<Colors<'a>, DecodeError>)
        ensures
            final(cursor).buffer() == old(cursor).buffer(),
            read_outcome(
                *old(cursor),
                *final(cursor),
                r is Ok,
                spec_size_from_tag(tag) as int,
            ),
            r is Ok ==> r->Ok_0@ == seq![
                old(cursor).buffer().subrange(
                    old(cursor).position() as int,
                    old(cursor).position() + spec_size_from_tag(tag),
                ),
            ],
            r is Err ==> r->Err_0 == DecodeError::Truncated,
    {
        let count: u8 = 1;
        let mut table: Vec<&'a [u8]> = Vec::with_capacity(count as usize);
        let size = size_from_tag(tag);
        let bytes = cursor.read_bytes(size)?;
        table.push(bytes);
        let colors = Colors { table };
        assert(colors@ =~= seq![bytes@]);
        Ok(colors)
    }

    /// The color of entry `idx`; opaque white where the table has no such
    /// entry.
    pub fn get(&self, idx: u16) -> (color: LinearColor)
        ensures
            color == if idx < self@.len() {
                resolve_color(self@[idx as int])
            } else {
                opaque_white()
            },
    {
        if (idx as usize) < self.table.len() {
            let buf: &[u8] = self.table[idx as usize];
            assert(buf@ == self@[idx as int]);
            if buf.len() == 4 {
                LinearColor {
                    red: teint(to_signed(buf[0])) * 2,
                    green: teint(to_signed(buf[1])) * 2,
                    blue: teint(to_signed(buf[2])) * 2,
                    alpha: teint(to_signed(buf[3])),
                }
            } else if buf.len() == 3 {
                LinearColor {
                    red: teint(to_signed(buf[0])) * 2,
                    green: teint(to_signed(buf[1])) * 2,
                    blue: teint(to_signed(buf[2])) * 2,
                    alpha: CHANNEL_ONE,
                }
            } else {
                LinearColor {
                    red: CHANNEL_ONE,
                    green: CHANNEL_ONE,
                    blue: CHANNEL_ONE,
                    alpha: CHANNEL_ONE,
                }
            }
        } else {
            LinearColor {
                red: CHANNEL_ONE,
                green: CHANNEL_ONE,
                blue: CHANNEL_ONE,
                alpha: CHANNEL_ONE,
            }
        }
    }
}

/// The doubling bit doubles what the bits 0x02 and 0x08 have added, not what
/// the bits 0x01 and 0x04 add after it: a tag with the bits 0x02 and 0x10 and
/// none of the other three selects six bytes.
pub proof fn lemma_doubling_counts_earlier_bits(tag: u8)
    requires
        tag & 0x1f == 0x12,
    ensures
        spec_size_from_tag(tag) == 6,
{
    assert(tag & 0x1f == 0x12 ==> tag & 0x02 != 0 && tag & 0x08 == 0 && tag & 0x10 != 0 && tag
        & 0x01 == 0 && tag & 0x04 == 0) by (bit_vector);
}

/// Setting the doubling bit adds once more what the bits 0x02 and 0x08
/// stand for, and nothing for the bits 0x01 and 0x04.
pub proof fn lemma_doubling(tag: u8)
    requires
        !has_flag(tag, 0x10),
    ensures
        spec_size_from_tag(tag | 0x10) == spec_size_from_tag(tag) + (if has_flag(tag, 0x02) {
            3nat
        } else {
            0nat
        }) + (if has_flag(tag, 0x08) {
            1nat
        } else {
            0nat
        }),
{
    let set = tag | 0x10;
    assert(set & 0x10 != 0 && set & 0x02 == tag & 0x02 && set & 0x08 == tag & 0x08 && set & 0x01
        == tag & 0x01 && set & 0x04 == tag & 0x04) by (bit_vector)
        requires
            set == tag | 0x10,
    ;
}

/// The three high bits of a tag do not count.
pub proof fn lemma_high_bits_ignored(tag: u8)
    ensures
        spec_size_from_tag(tag) == spec_size_from_tag(tag & 0x1f),
{
    let low = tag & 0x1f;
    assert(low & 0x10 == tag & 0x10 && low & 0x02 == tag & 0x02 && low & 0x08 == tag & 0x08 && low
        & 0x01 == tag & 0x01 && low & 0x04 == tag & 0x04) by (bit_vector)
        requires
            low == tag & 0x1f,
    ;
}

/// Binary digit `i` of `tag`, the lowest being digit 0.
pub open spec fn digit(tag: u8, i: nat) -> nat {
    if i == 0 {
        (tag % 2) as nat
    } else if i == 1 {
        ((tag / 2) % 2) as nat
    } else if i == 2 {
        ((tag / 4) % 2) as nat
    } else if i == 3 {
        ((tag / 8) % 2) as nat
    } else {
        ((tag / 16) % 2) as nat
    }
}

/// The length as one sum over the binary digits of the tag: three for
/// digit 1 and one for digit 3, both counted twice if digit 4 is set, and
/// three each for the digits 0 and 2.
pub proof fn lemma_size_by_digits(tag: u8)
    ensures
        spec_size_from_tag(tag) == (3 * digit(tag, 1) + digit(tag, 3)) * (1 + digit(tag, 4)) + 3
            * digit(tag, 0) + 3 * digit(tag, 2),
        spec_size_from_tag(tag) <= 14,
{
    assert((tag & 0x01 != 0 <==> tag % 2 == 1) && (tag & 0x02 != 0 <==> (tag / 2) % 2 == 1) && (tag
        & 0x04 != 0 <==> (tag / 4) % 2 == 1) && (tag & 0x08 != 0 <==> (tag / 8) % 2 == 1) && (tag
        & 0x10 != 0 <==> (tag / 16) % 2 == 1)) by (bit_vector);
    let early = 3 * digit(tag, 1) + digit(tag, 3);
    let twice = digit(tag, 4);
    assert(early * (1 + twice) == if twice == 0 {
        early
    } else {
        2 * early
    }) by (nonlinear_arith)
        requires
            twice == 0 || twice == 1,
    ;
}

/// A tint record that is neither three nor four bytes long resolves to
/// opaque white.
pub proof fn lemma_other_lengths_are_white(record: Seq<u8>)
    requires
        record.len() != 3,
        record.len() != 4,
    ensures
        resolve_color(record) == opaque_white(),
{
}

/// The channels of a resolved color stay in range: red, green and blue
/// between -2 and 1018 (just under 0 and just under 2.0), alpha between -1
/// and 510 (1.0).
pub proof fn lemma_channel_ranges(record: Seq<u8>)
    ensures
        -2 <= resolve_color(record).red <= 1018,
        -2 <= resolve_color(record).green <= 1018,
        -2 <= resolve_color(record).blue <= 1018,
        -1 <= resolve_color(record).alpha <= 510,
{
}

} // verus!
