//! The chunk: a header, then rectangles of cells, each cell a stack of
//! sprite records.
//!
//! The grammar is given by the `parse_*` functions below, from the innermost
//! level outwards. Each takes the buffer and a position and yields the
//! sprites found from there on with the position after them, or `None` where
//! the buffer ends too early. [`MapChunk::try_read`] computes
//! [`parse_chunk`].

use crate::map::cursor::{le_i16, le_i32, le_u16, Cursor, DecodeError};
use crate::map::sprite::{sprite_at, sprite_fits, sprite_len, MapSprite};
use vstd::prelude::*;

verus! {

/// One decoded chunk.
#[derive(Debug)]
pub struct MapChunk {
    /// Origin of the chunk, first horizontal axis. Cell positions in the
    /// body of the chunk are relative to it.
    pub map_x: i32,
    /// Origin of the chunk, second horizontal axis.
    pub map_y: i32,
    pub min_x: i32,
    pub min_y: i32,
    pub min_z: i16,
    pub max_x: i32,
    pub max_y: i32,
    pub max_z: i16,
    /// The sprites, in the order of the records in the buffer.
    pub sprites: Vec<MapSprite>,
}

/// A chunk as a mathematical value.
pub struct ChunkModel {
    pub map_x: i32,
    pub map_y: i32,
    pub min_x: i32,
    pub min_y: i32,
    pub min_z: i16,
    pub max_x: i32,
    pub max_y: i32,
    pub max_z: i16,
    pub sprites: Seq<MapSprite>,
}

impl View for MapChunk {
    type V = ChunkModel;

    open spec fn view(&self) -> ChunkModel {
        ChunkModel {
            map_x: self.map_x,
            map_y: self.map_y,
            min_x: self.min_x,
            min_y: self.min_y,
            min_z: self.min_z,
            max_x: self.max_x,
            max_y: self.max_y,
            max_z: self.max_z,
            sprites: self.sprites@,
        }
    }
}

/// The length of the chunk header: two bounding corners (two 32-bit and one
/// 16-bit coordinate each), the origin (two 32-bit coordinates) and the
/// 16-bit count of rectangles.
pub const HEADER_LEN: usize = 30;

/// The outcome of parsing a stretch of the buffer: the sprites found and the
/// position after them.
pub type Parsed = Option<(Seq<MapSprite>, int)>;

/// `rest` with the sprites `done` put in front of its sprites.
pub open spec fn following(done: Seq<MapSprite>, rest: Parsed) -> Parsed {
    match rest {
        Some((sprites, end)) => Some((done + sprites, end)),
        None => None,
    }
}

/// An origin coordinate moved by a corner byte. The sum wraps at the ends of
/// the 32-bit range.
pub open spec fn cell_coord(origin: i32, delta: u8) -> i32 {
    if origin + delta > i32::MAX {
        (origin + delta - 0x1_0000_0000) as i32
    } else {
        (origin + delta) as i32
    }
}

/// `count` sprite records in a row from `at`, all on the cell (`x`, `y`).
pub open spec fn parse_stack(bytes: Seq<u8>, at: int, count: nat, x: i32, y: i32) -> Parsed
    decreases count,
{
    if count == 0 {
        Some((Seq::empty(), at))
    } else if !sprite_fits(bytes, at) {
        None
    } else {
        following(
            seq![sprite_at(bytes, at, x, y)],
            parse_stack(bytes, at + sprite_len(bytes, at), (count - 1) as nat, x, y),
        )
    }
}

/// One cell: a count byte, then that many sprite records.
pub open spec fn parse_cell(bytes: Seq<u8>, at: int, x: i32, y: i32) -> Parsed {
    if at + 1 > bytes.len() {
        None
    } else {
        parse_stack(bytes, at + 1, bytes[at] as nat, x, y)
    }
}

/// The cells (`x`, `y`), (`x`, `y + 1`), ... up to but without (`x`,
/// `y_end`).
pub open spec fn parse_column(bytes: Seq<u8>, at: int, x: i32, y: i32, y_end: i32) -> Parsed
    decreases y_end - y,
{
    if y >= y_end {
        Some((Seq::empty(), at))
    } else {
        match parse_cell(bytes, at, x, y) {
            Some((sprites, next)) => following(
                sprites,
                parse_column(bytes, next, x, (y + 1) as i32, y_end),
            ),
            None => None,
        }
    }
}

/// The columns `x`, `x + 1`, ... up to but without `x_end`, each running
/// from `y` up to but without `y_end`.
pub open spec fn parse_columns(
    bytes: Seq<u8>,
    at: int,
    x: i32,
    x_end: i32,
    y: i32,
    y_end: i32,
) -> Parsed
    decreases x_end - x,
{
    if x >= x_end {
        Some((Seq::empty(), at))
    } else {
        match parse_column(bytes, at, x, y, y_end) {
            Some((sprites, next)) => following(
                sprites,
                parse_columns(bytes, next, (x + 1) as i32, x_end, y, y_end),
            ),
            None => None,
        }
    }
}

/// One rectangle: four corner bytes (lower and upper bound on the first
/// axis, then on the second), each relative to the origin, then the cells
/// between the bounds, the upper bounds left out.
pub open spec fn parse_rect(bytes: Seq<u8>, at: int, map_x: i32, map_y: i32) -> Parsed {
    if at + 4 > bytes.len() {
        None
    } else {
        parse_columns(
            bytes,
            at + 4,
            cell_coord(map_x, bytes[at]),
            cell_coord(map_x, bytes[at + 1]),
            cell_coord(map_y, bytes[at + 2]),
            cell_coord(map_y, bytes[at + 3]),
        )
    }
}

/// `count` rectangles in a row from `at`.
pub open spec fn parse_rects(bytes: Seq<u8>, at: int, count: nat, map_x: i32, map_y: i32) -> Parsed
    decreases count,
{
    if count == 0 {
        Some((Seq::empty(), at))
    } else {
        match parse_rect(bytes, at, map_x, map_y) {
            Some((sprites, next)) => following(
                sprites,
                parse_rects(bytes, next, (count - 1) as nat, map_x, map_y),
            ),
            None => None,
        }
    }
}

/// A whole chunk at the start of `bytes`, and the number of bytes it takes.
pub open spec fn parse_chunk(bytes: Seq<u8>) -> Option<(ChunkModel, int)> {
    if bytes.len() < 30 {
        None
    } else {
        let map_x = le_i32(bytes, 20);
        let map_y = le_i32(bytes, 24);
        match parse_rects(bytes, 30, le_u16(bytes, 28) as nat, map_x, map_y) {
            Some((sprites, end)) => Some(
                (
                    ChunkModel {
                        map_x,
                        map_y,
                        min_x: le_i32(bytes, 0),
                        min_y: le_i32(bytes, 4),
                        min_z: le_i16(bytes, 8),
                        max_x: le_i32(bytes, 10),
                        max_y: le_i32(bytes, 14),
                        max_z: le_i16(bytes, 18),
                        sprites,
                    },
                    end,
                ),
            ),
            None => None,
        }
    }
}

/// What a reader of one level of the grammar owes: where `expected` is
/// `None` it fails, and where `expected` holds sprites it appends exactly
/// them and stops at the position after them.
pub open spec fn appended(
    expected: Parsed,
    ok: bool,
    before: Seq<MapSprite>,
    now: Seq<MapSprite>,
    position: int,
) -> bool {
    match expected {
        Some((sprites, end)) => ok && now == before + sprites && position == end,
        None => !ok,
    }
}

/// Reads one cell and appends its sprites to `sprites`.
#[verifier::loop_isolation(false)]
fn read_cell(cursor: &mut Cursor, x: i32, y: i32, sprites: &mut Vec<MapSprite>) -> (r: Result<
    (),
    DecodeError,
>)
    ensures
        final(cursor).buffer() == old(cursor).buffer(),
        appended(
            parse_cell(old(cursor).buffer(), old(cursor).position() as int, x, y),
            r is Ok,
            old(sprites)@,
            final(sprites)@,
            final(cursor).position() as int,
        ),
        r is Err ==> r->Err_0 == DecodeError::Truncated,
{
    let ghost bytes = cursor.buffer();
    let ghost cell = parse_cell(bytes, cursor.position() as int, x, y);
    let count = cursor.read_u8()?;
    let mut k: u8 = 0;
    while k < count
        invariant
            k <= count,
            cursor.buffer() == bytes,
            cell == following(
                sprites@.skip(old(sprites)@.len() as int),
                parse_stack(bytes, cursor.position() as int, (count - k) as nat, x, y),
            ),
            old(sprites)@.is_prefix_of(sprites@),
        decreases count - k,
    {
        let ghost done = sprites@.skip(old(sprites)@.len() as int);
        let element = MapSprite::read(cursor, x, y)?;
        sprites.push(element);
        k += 1;
        proof {
            let rest = parse_stack(bytes, cursor.position() as int, (count - k) as nat, x, y);
            assert(sprites@.skip(old(sprites)@.len() as int) =~= done + seq![element]);
            if let Some((tail, _)) = rest {
                assert((done + seq![element]) + tail =~= done + (seq![element] + tail));
            }
        }
    }
    proof {
        let done = sprites@.skip(old(sprites)@.len() as int);
        assert(done + Seq::<MapSprite>::empty() =~= done);
        assert(sprites@ =~= old(sprites)@ + done);
    }
    Ok(())
}

/// Reads the cells of one column, from `y` up to but without `y_end`, and
/// appends their sprites to `sprites`.
#[verifier::loop_isolation(false)]
fn read_column(
    cursor: &mut Cursor,
    x: i32,
    y: i32,
    y_end: i32,
    sprites: &mut Vec<MapSprite>,
) -> (r: Result<(), DecodeError>)
    ensures
        final(cursor).buffer() == old(cursor).buffer(),
        appended(
            parse_column(old(cursor).buffer(), old(cursor).position() as int, x, y, y_end),
            r is Ok,
            old(sprites)@,
            final(sprites)@,
            final(cursor).position() as int,
        ),
        r is Err ==> r->Err_0 == DecodeError::Truncated,
{
    let ghost bytes = cursor.buffer();
    let ghost column = parse_column(bytes, cursor.position() as int, x, y, y_end);
    let mut cell_y: i32 = y;
    while cell_y < y_end
        invariant
            cursor.buffer() == bytes,
            column == following(
                sprites@.skip(old(sprites)@.len() as int),
                parse_column(bytes, cursor.position() as int, x, cell_y, y_end),
            ),
            old(sprites)@.is_prefix_of(sprites@),
        decreases y_end - cell_y,
    {
        let ghost done = sprites@.skip(old(sprites)@.len() as int);
        let ghost cell = parse_cell(bytes, cursor.position() as int, x, cell_y);
        read_cell(cursor, x, cell_y, sprites)?;
        cell_y += 1;
        proof {
            let rest = parse_column(bytes, cursor.position() as int, x, cell_y, y_end);
            let found = cell->Some_0.0;
            assert(sprites@.skip(old(sprites)@.len() as int) =~= done + found);
            if let Some((tail, _)) = rest {
                assert((done + found) + tail =~= done + (found + tail));
            }
        }
    }
    proof {
        let done = sprites@.skip(old(sprites)@.len() as int);
        assert(done + Seq::<MapSprite>::empty() =~= done);
        assert(sprites@ =~= old(sprites)@ + done);
    }
    Ok(())
}

/// An origin coordinate moved by a corner byte, wrapping at the ends of the
/// 32-bit range.
fn offset_coord(origin: i32, delta: u8) -> (coord: i32)
    ensures
        coord == cell_coord(origin, delta),
{
    origin.wrapping_add(delta as i32)
}

/// Reads the cells of a run of columns, from column `x` up to but without
/// `x_end`, each from row `y` up to but without `y_end`, and appends their
/// sprites to `sprites`.
#[verifier::loop_isolation(false)]
fn read_columns(
    cursor: &mut Cursor,
    x: i32,
    x_end: i32,
    y: i32,
    y_end: i32,
    sprites: &mut Vec<MapSprite>,
) -> (r: Result<(), DecodeError>)
    ensures
        final(cursor).buffer() == old(cursor).buffer(),
        appended(
            parse_columns(old(cursor).buffer(), old(cursor).position() as int, x, x_end, y, y_end),
            r is Ok,
            old(sprites)@,
            final(sprites)@,
            final(cursor).position() as int,
        ),
        r is Err ==> r->Err_0 == DecodeError::Truncated,
{
    let ghost bytes = cursor.buffer();
    let ghost columns = parse_columns(bytes, cursor.position() as int, x, x_end, y, y_end);
    let mut cell_x: i32 = x;
    while cell_x < x_end
        invariant
            cursor.buffer() == bytes,
            columns == following(
                sprites@.skip(old(sprites)@.len() as int),
                parse_columns(bytes, cursor.position() as int, cell_x, x_end, y, y_end),
            ),
            old(sprites)@.is_prefix_of(sprites@),
        decreases x_end - cell_x,
    {
        let ghost done = sprites@.skip(old(sprites)@.len() as int);
        let ghost column = parse_column(bytes, cursor.position() as int, cell_x, y, y_end);
        read_column(cursor, cell_x, y, y_end, sprites)?;
        cell_x += 1;
        proof {
            let rest = parse_columns(bytes, cursor.position() as int, cell_x, x_end, y, y_end);
            let found = column->Some_0.0;
            assert(sprites@.skip(old(sprites)@.len() as int) =~= done + found);
            if let Some((tail, _)) = rest {
                assert((done + found) + tail =~= done + (found + tail));
            }
        }
    }
    proof {
        let done = sprites@.skip(old(sprites)@.len() as int);
        assert(done + Seq::<MapSprite>::empty() =~= done);
        assert(sprites@ =~= old(sprites)@ + done);
    }
    Ok(())
}

/// Reads one rectangle, corner bytes and cells, and appends the sprites of
/// its cells to `sprites`.
fn read_rect(cursor: &mut Cursor, map_x: i32, map_y: i32, sprites: &mut Vec<MapSprite>) -> (r:
    Result<(), DecodeError>)
    ensures
        final(cursor).buffer() == old(cursor).buffer(),
        appended(
            parse_rect(old(cursor).buffer(), old(cursor).position() as int, map_x, map_y),
            r is Ok,
            old(sprites)@,
            final(sprites)@,
            final(cursor).position() as int,
        ),
        r is Err ==> r->Err_0 == DecodeError::Truncated,
{
    let rect_min_x = offset_coord(map_x, cursor.read_u8()?);
    let rect_max_x = offset_coord(map_x, cursor.read_u8()?);
    let rect_min_y = offset_coord(map_y, cursor.read_u8()?);
    let rect_max_y = offset_coord(map_y, cursor.read_u8()?);

    read_columns(cursor, rect_min_x, rect_max_x, rect_min_y, rect_max_y, sprites)
}

impl MapChunk {
    /// Decodes the chunk at the start of `bytes`. Returns it with the number
    /// of bytes it took; what follows them in `bytes` is not looked at.
    ///
    /// Decoding fails, with [`DecodeError::Truncated`], exactly when `bytes`
    /// ends before the chunk does.
    #[verifier::loop_isolation(false)]
    pub fn try_read(bytes: &[u8]) -> (r: Result<(MapChunk, usize), DecodeError>)
        ensures
            match parse_chunk(bytes@) {
                Some((chunk, end)) => r is Ok && r->Ok_0.0@ == chunk && r->Ok_0.1 == end,
                None => r == Err::<(MapChunk, usize), DecodeError>(DecodeError::Truncated),
            },
    {
        let mut cursor = Cursor::new(bytes);

        let min_x = cursor.read_i32()?;
        let min_y = cursor.read_i32()?;
        let min_z = cursor.read_i16()?;
        let max_x = cursor.read_i32()?;
        let max_y = cursor.read_i32()?;
        let max_z = cursor.read_i16()?;
        let map_x = cursor.read_i32()?;
        let map_y = cursor.read_i32()?;
        let rects = cursor.read_u16()?;
        let mut sprites: Vec<MapSprite> = Vec::with_capacity(rects as usize * 2);

        let ghost body = parse_rects(bytes@, 30, rects as nat, map_x, map_y);
        let mut i: u16 = 0;
        while i < rects
            invariant
                i <= rects,
                cursor.buffer() == bytes@,
                body == following(
                    sprites@,
                    parse_rects(bytes@, cursor.position() as int, (rects - i) as nat, map_x, map_y),
                ),
            decreases rects - i,
        {
            let ghost done = sprites@;
            let ghost rect = parse_rect(bytes@, cursor.position() as int, map_x, map_y);
            match read_rect(&mut cursor, map_x, map_y, &mut sprites) {
                Ok(()) => {},
                Err(e) => {
                    return Err(e);
                },
            }
            i += 1;
            proof {
                let rest = parse_rects(
                    bytes@,
                    cursor.position() as int,
                    (rects - i) as nat,
                    map_x,
                    map_y,
                );
                let found = rect->Some_0.0;
                if let Some((tail, _)) = rest {
                    assert((done + found) + tail =~= done + (found + tail));
                }
            }
        }
        proof {
            assert(sprites@ + Seq::<MapSprite>::empty() =~= sprites@);
        }
        let chunk = MapChunk { map_x, map_y, min_x, min_y, min_z, max_x, max_y, max_z, sprites };
        Ok((chunk, cursor.offset()))
    }
}

/// A buffer shorter than the header holds no chunk.
pub proof fn lemma_short_buffer(bytes: Seq<u8>)
    requires
        bytes.len() < 30,
    ensures
        parse_chunk(bytes) is None,
{
}

/// A chunk that announces no rectangles decodes, to its header and no
/// sprites, and ends with the header.
pub proof fn lemma_no_rectangles(bytes: Seq<u8>)
    requires
        bytes.len() >= 30,
        le_u16(bytes, 28) == 0,
    ensures
        parse_chunk(bytes) is Some,
        parse_chunk(bytes)->Some_0.0.sprites == Seq::<MapSprite>::empty(),
        parse_chunk(bytes)->Some_0.1 == 30,
{
}

/// A cell whose count byte is zero yields no sprites, and the reader moves
/// past that one byte.
pub proof fn lemma_empty_cell(bytes: Seq<u8>, at: int, x: i32, y: i32)
    requires
        0 <= at < bytes.len(),
        bytes[at] == 0,
    ensures
        parse_cell(bytes, at, x, y) == Some((Seq::<MapSprite>::empty(), at + 1)),
{
}

/// Columns without rows take no bytes and yield no sprites.
pub proof fn lemma_no_rows(bytes: Seq<u8>, at: int, x: i32, x_end: i32, y: i32, y_end: i32)
    requires
        y >= y_end,
    ensures
        parse_columns(bytes, at, x, x_end, y, y_end) == Some((Seq::<MapSprite>::empty(), at)),
    decreases x_end - x,
{
    if x < x_end {
        lemma_no_rows(bytes, at, (x + 1) as i32, x_end, y, y_end);
        assert(Seq::<MapSprite>::empty() + Seq::<MapSprite>::empty() =~= Seq::<MapSprite>::empty());
    }
}

/// A rectangle whose bounds meet on either axis holds no cell: it decodes
/// to no sprites and takes its four corner bytes alone.
pub proof fn lemma_empty_rect(bytes: Seq<u8>, at: int, map_x: i32, map_y: i32)
    requires
        0 <= at,
        at + 4 <= bytes.len(),
        bytes[at] == bytes[at + 1] || bytes[at + 2] == bytes[at + 3],
    ensures
        parse_rect(bytes, at, map_x, map_y) == Some((Seq::<MapSprite>::empty(), at + 4)),
{
    if bytes[at + 2] == bytes[at + 3] {
        lemma_no_rows(
            bytes,
            at + 4,
            cell_coord(map_x, bytes[at]),
            cell_coord(map_x, bytes[at + 1]),
            cell_coord(map_y, bytes[at + 2]),
            cell_coord(map_y, bytes[at + 3]),
        );
    }
}

} // verus!
