//! One placed element of a chunk, and its record on the wire.

use crate::map::color::{resolve_color, spec_size_from_tag, Colors, LinearColor};
use crate::map::cursor::{le_i16, le_i32, Cursor, DecodeError};
use vstd::prelude::*;

verus! {

/// One placed visual element.
#[derive(Debug, Clone, Copy, PartialEq, Eq, Structural)]
pub struct MapSprite {
    /// Horizontal cell position, first axis.
    pub cell_x: i32,
    /// Horizontal cell position, second axis.
    pub cell_y: i32,
    /// Vertical cell coordinate.
    pub cell_z: i16,
    /// Height of the element within its cell.
    pub height: u8,
    /// Draw order among the elements stacked on one cell.
    pub altitude_order: u8,
    /// Key into the catalog of element definitions.
    pub element_id: u8,
    /// Key of the multi-cell object that the element is part of.
    pub group_key: i32,
    /// Identifier of that object.
    pub group_id: i32,
    /// Draw layer.
    pub layer: u8,
    /// Tint.
    pub color: LinearColor,
}

/// The length of the fields of a sprite record that come before its tint
/// record: tag, vertical coordinate, height, altitude order, group key,
/// layer, group id, occluder flag, element identifier.
pub const SPRITE_FIXED_LEN: usize = 16;

/// The length of the sprite record that starts at `at`, its tint included.
pub open spec fn sprite_len(bytes: Seq<u8>, at: int) -> int {
    16 + spec_size_from_tag(bytes[at]) as int
}

/// Whether a whole sprite record lies in `bytes` from `at` on.
pub open spec fn sprite_fits(bytes: Seq<u8>, at: int) -> bool {
    at + 16 <= bytes.len() && at + sprite_len(bytes, at) <= bytes.len()
}

/// The sprite that the record at `at` describes, placed on the cell
/// (`cell_x`, `cell_y`). The occluder flag, the byte before the element
/// identifier, is not kept.
pub open spec fn sprite_at(bytes: Seq<u8>, at: int, cell_x: i32, cell_y: i32) -> MapSprite {
    MapSprite {
        cell_x,
        cell_y,
        cell_z: le_i16(bytes, at + 1),
        height: bytes[at + 3],
        altitude_order: bytes[at + 4],
        group_key: le_i32(bytes, at + 5),
        layer: bytes[at + 9],
        group_id: le_i32(bytes, at + 10),
        element_id: bytes[at + 15],
        color: resolve_color(bytes.subrange(at + 16, at + sprite_len(bytes, at))),
    }
}

impl MapSprite {
    /// Reads one sprite record and places it on the cell (`cell_x`,
    /// `cell_y`).
    pub fn read(cursor: &mut Cursor, cell_x: i32, cell_y: i32) -> (r: Result<
        MapSprite,
        DecodeError,
    >)
        ensures
            final(cursor).buffer() == old(cursor).buffer(),
            r is Ok <==> sprite_fits(old(cursor).buffer(), old(cursor).position() as int),
            r is Ok ==> {
                &&& r->Ok_0 == sprite_at(
                    old(cursor).buffer(),
                    old(cursor).position() as int,
                    cell_x,
                    cell_y,
                )
                &&& final(cursor).position() == old(cursor).position() + sprite_len(
                    old(cursor).buffer(),
                    old(cursor).position() as int,
                )
            },
            r is Err ==> r->Err_0 == DecodeError::Truncated,
    {
        let typ = cursor.read_u8()?;
        let cell_z = cursor.read_i16()?;
        let height = cursor.read_u8()?;
        let altitude_order = cursor.read_u8()?;
        let group_key = cursor.read_i32()?;
        let layer = cursor.read_u8()?;
        let group_id = cursor.read_i32()?;
        let _occluder = cursor.read_u8()? != 0;
        let element_id = cursor.read_u8()?;
        let colors = Colors::try_read(cursor, typ)?;
        let color = colors.get(0);
        Ok(
            MapSprite {
                cell_x,
                cell_y,
                cell_z,
                height,
                altitude_order,
                element_id,
                group_key,
                group_id,
                layer,
                color,
            },
        )
    }
}

} // verus!
