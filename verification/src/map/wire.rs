//! The wire form of a chunk, written out: which bytes a given chunk is made
//! of. Nothing here runs; it is the other half of the grammar in
//! [`crate::map::chunk`], and the laws at the end tie the two together.

use crate::map::chunk::{
    cell_coord, following, parse_cell, parse_chunk, parse_column, parse_columns, parse_rect,
    parse_rects, parse_stack, ChunkModel,
};
use crate::map::color::{resolve_color, spec_size_from_tag};
use crate::map::cursor::{le_i16, le_i32, le_u16};
use crate::map::sprite::{sprite_at, sprite_fits, sprite_len, MapSprite};
use vstd::prelude::*;

verus! {

/// The unsigned number with the bits of `v` in 16-bit two's complement.
pub open spec fn twos_16(v: i16) -> u32 {
    if v < 0 {
        (v + 0x1_0000) as u32
    } else {
        v as u32
    }
}

/// The unsigned number with the bits of `v` in 32-bit two's complement.
pub open spec fn twos_32(v: i32) -> u32 {
    if v < 0 {
        (v + 0x1_0000_0000) as u32
    } else {
        v as u32
    }
}

/// Byte `k` of `u`, the lowest byte being byte 0.
pub open spec fn byte_of(u: u32, k: nat) -> u8 {
    if k == 0 {
        (u % 0x100) as u8
    } else if k == 1 {
        ((u / 0x100) % 0x100) as u8
    } else if k == 2 {
        ((u / 0x1_0000) % 0x100) as u8
    } else {
        ((u / 0x100_0000) % 0x100) as u8
    }
}

/// The two low bytes of `u` on the wire, the lowest first.
pub open spec fn wire_16(u: u32) -> Seq<u8> {
    seq![byte_of(u, 0), byte_of(u, 1)]
}

/// The four bytes of `u` on the wire, the lowest first.
pub open spec fn wire_32(u: u32) -> Seq<u8> {
    seq![byte_of(u, 0), byte_of(u, 1), byte_of(u, 2), byte_of(u, 3)]
}

/// A number is the sum of its bytes, each at its place.
pub proof fn lemma_sum_of_bytes(u: u32)
    ensures
        u == byte_of(u, 0) + 0x100 * byte_of(u, 1) + 0x1_0000 * byte_of(u, 2) + 0x100_0000
            * byte_of(u, 3),
        u < 0x1_0000 ==> u == byte_of(u, 0) + 0x100 * byte_of(u, 1),
{
    let b0 = u % 0x100;
    let b1 = (u / 0x100) % 0x100;
    let b2 = (u / 0x1_0000) % 0x100;
    let b3 = (u / 0x100_0000) % 0x100;
    assert(b0 < 0x100 && b1 < 0x100 && b2 < 0x100 && b3 < 0x100 && u == b0 + 0x100 * b1 + 0x1_0000
        * b2 + 0x100_0000 * b3 && (u < 0x1_0000 ==> b2 == 0 && b3 == 0)) by (bit_vector)
        requires
            b0 == u % 0x100,
            b1 == (u / 0x100) % 0x100,
            b2 == (u / 0x1_0000) % 0x100,
            b3 == (u / 0x100_0000) % 0x100,
    ;
}

/// Whether `bytes` holds `part` from position `at` on.
pub open spec fn stored_at(bytes: Seq<u8>, at: int, part: Seq<u8>) -> bool {
    &&& 0 <= at
    &&& at + part.len() <= bytes.len()
    &&& bytes.subrange(at, at + part.len()) == part
}

/// Where a run of bytes is stored, so is each of its two halves.
pub proof fn lemma_stored_parts(bytes: Seq<u8>, at: int, first: Seq<u8>, second: Seq<u8>)
    requires
        stored_at(bytes, at, first + second),
    ensures
        stored_at(bytes, at, first),
        stored_at(bytes, at + first.len(), second),
{
    let whole = first + second;
    let run = bytes.subrange(at, at + whole.len());
    assert(bytes.subrange(at, at + first.len()) =~= run.subrange(0, first.len() as int));
    assert(whole.subrange(0, first.len() as int) =~= first);
    assert(bytes.subrange(at + first.len(), at + first.len() + second.len()) =~= run.subrange(
        first.len() as int,
        whole.len() as int,
    ));
    assert(whole.subrange(first.len() as int, whole.len() as int) =~= second);
}

/// A stored byte is the byte of the buffer at that place.
pub proof fn lemma_stored_byte(bytes: Seq<u8>, at: int, part: Seq<u8>, i: int)
    requires
        stored_at(bytes, at, part),
        0 <= i < part.len(),
    ensures
        bytes[at + i] == part[i],
{
    assert(bytes.subrange(at, at + part.len())[i] == bytes[at + i]);
}

/// Reading back an unsigned 16-bit number gives the number that was
/// written.
pub proof fn lemma_read_u16(bytes: Seq<u8>, at: int, u: u16)
    requires
        stored_at(bytes, at, wire_16(u as u32)),
    ensures
        le_u16(bytes, at) == u,
{
    lemma_stored_byte(bytes, at, wire_16(u as u32), 0);
    lemma_stored_byte(bytes, at, wire_16(u as u32), 1);
    lemma_sum_of_bytes(u as u32);
}

/// Reading back a signed 16-bit number gives the number that was written.
pub proof fn lemma_read_i16(bytes: Seq<u8>, at: int, v: i16)
    requires
        stored_at(bytes, at, wire_16(twos_16(v))),
    ensures
        le_i16(bytes, at) == v,
{
    lemma_stored_byte(bytes, at, wire_16(twos_16(v)), 0);
    lemma_stored_byte(bytes, at, wire_16(twos_16(v)), 1);
    lemma_sum_of_bytes(twos_16(v));
}

/// Reading back a signed 32-bit number gives the number that was written.
pub proof fn lemma_read_i32(bytes: Seq<u8>, at: int, v: i32)
    requires
        stored_at(bytes, at, wire_32(twos_32(v))),
    ensures
        le_i32(bytes, at) == v,
{
    lemma_stored_byte(bytes, at, wire_32(twos_32(v)), 0);
    lemma_stored_byte(bytes, at, wire_32(twos_32(v)), 1);
    lemma_stored_byte(bytes, at, wire_32(twos_32(v)), 2);
    lemma_stored_byte(bytes, at, wire_32(twos_32(v)), 3);
    lemma_sum_of_bytes(twos_32(v));
}

/// One sprite record as it is written: the fields of the sprite, the tag
/// that sizes its tint, the occluder byte that readers pass over, and the
/// tint bytes.
pub struct SpriteRecord {
    pub tag: u8,
    pub cell_z: i16,
    pub height: u8,
    pub altitude_order: u8,
    pub group_key: i32,
    pub layer: u8,
    pub group_id: i32,
    pub occluder: u8,
    pub element_id: u8,
    pub tint: Seq<u8>,
}

impl SpriteRecord {
    /// The tint has the length that the tag announces.
    pub open spec fn wf(self) -> bool {
        self.tint.len() == spec_size_from_tag(self.tag)
    }

    /// The bytes of the record.
    pub open spec fn wire(self) -> Seq<u8> {
        seq![
            self.tag,
            byte_of(twos_16(self.cell_z), 0),
            byte_of(twos_16(self.cell_z), 1),
            self.height,
            self.altitude_order,
            byte_of(twos_32(self.group_key), 0),
            byte_of(twos_32(self.group_key), 1),
            byte_of(twos_32(self.group_key), 2),
            byte_of(twos_32(self.group_key), 3),
            self.layer,
            byte_of(twos_32(self.group_id), 0),
            byte_of(twos_32(self.group_id), 1),
            byte_of(twos_32(self.group_id), 2),
            byte_of(twos_32(self.group_id), 3),
            self.occluder,
            self.element_id,
        ] + self.tint
    }

    /// The sprite that the record describes, on the cell (`x`, `y`).
    pub open spec fn sprite(self, x: i32, y: i32) -> MapSprite {
        MapSprite {
            cell_x: x,
            cell_y: y,
            cell_z: self.cell_z,
            height: self.height,
            altitude_order: self.altitude_order,
            element_id: self.element_id,
            group_key: self.group_key,
            group_id: self.group_id,
            layer: self.layer,
            color: resolve_color(self.tint),
        }
    }
}

/// The records stacked on one cell, in order.
pub type Stack = Seq<SpriteRecord>;

/// The bytes of the records of a stack, without the count in front.
pub open spec fn wire_records(stack: Stack) -> Seq<u8>
    decreases stack.len(),
{
    if stack.len() == 0 {
        Seq::empty()
    } else {
        stack[0].wire() + wire_records(stack.drop_first())
    }
}

/// The sprites of a stack, all on the cell (`x`, `y`).
pub open spec fn stack_sprites(stack: Stack, x: i32, y: i32) -> Seq<MapSprite>
    decreases stack.len(),
{
    if stack.len() == 0 {
        Seq::empty()
    } else {
        seq![stack[0].sprite(x, y)] + stack_sprites(stack.drop_first(), x, y)
    }
}

/// A stack can be written: its count fits the count byte and each record is
/// well formed.
pub open spec fn stack_wf(stack: Stack) -> bool {
    &&& stack.len() <= 255
    &&& forall|i: int| 0 <= i < stack.len() ==> (#[trigger] stack[i]).wf()
}

/// The bytes of one cell: the count, then the records.
pub open spec fn wire_cell(stack: Stack) -> Seq<u8> {
    seq![stack.len() as u8] + wire_records(stack)
}

/// The bytes of the cells of one column.
pub open spec fn wire_column(cells: Seq<Stack>) -> Seq<u8>
    decreases cells.len(),
{
    if cells.len() == 0 {
        Seq::empty()
    } else {
        wire_cell(cells[0]) + wire_column(cells.drop_first())
    }
}

/// The sprites of the cells of one column, the first cell being (`x`, `y`).
pub open spec fn column_sprites(cells: Seq<Stack>, x: i32, y: int) -> Seq<MapSprite>
    decreases cells.len(),
{
    if cells.len() == 0 {
        Seq::empty()
    } else {
        stack_sprites(cells[0], x, y as i32) + column_sprites(cells.drop_first(), x, y + 1)
    }
}

/// The bytes of a run of columns.
pub open spec fn wire_columns(columns: Seq<Seq<Stack>>) -> Seq<u8>
    decreases columns.len(),
{
    if columns.len() == 0 {
        Seq::empty()
    } else {
        wire_column(columns[0]) + wire_columns(columns.drop_first())
    }
}

/// The sprites of a run of columns, the first being column `x`, each
/// starting at row `y`.
pub open spec fn columns_sprites(columns: Seq<Seq<Stack>>, x: int, y: i32) -> Seq<MapSprite>
    decreases columns.len(),
{
    if columns.len() == 0 {
        Seq::empty()
    } else {
        column_sprites(columns[0], x as i32, y as int) + columns_sprites(
            columns.drop_first(),
            x + 1,
            y,
        )
    }
}

/// The number of cells from `low` up to but without `high`.
pub open spec fn extent(low: i32, high: i32) -> nat {
    if low < high {
        (high - low) as nat
    } else {
        0
    }
}

/// A run of columns can be written as the cells between the given bounds:
/// there is one column for each `x`, one cell in it for each `y`, and each
/// stack can be written.
pub open spec fn columns_wf(columns: Seq<Seq<Stack>>, x: i32, x_end: i32, y: i32, y_end: i32) -> bool {
    &&& columns.len() == extent(x, x_end)
    &&& forall|i: int| 0 <= i < columns.len() ==> (#[trigger] columns[i]).len() == extent(y, y_end)
    &&& forall|i: int, j: int|
        0 <= i < columns.len() && 0 <= j < columns[i].len() ==> stack_wf(#[trigger] columns[i][j])
}

/// One rectangle as it is written: four corner bytes relative to the origin
/// of the chunk, and the stacks of its cells, column by column.
pub struct RectRecord {
    pub min_x: u8,
    pub max_x: u8,
    pub min_y: u8,
    pub max_y: u8,
    pub columns: Seq<Seq<Stack>>,
}

impl RectRecord {
    /// The rectangle holds the cells that its corners span from the origin
    /// (`map_x`, `map_y`).
    pub open spec fn wf(self, map_x: i32, map_y: i32) -> bool {
        columns_wf(
            self.columns,
            cell_coord(map_x, self.min_x),
            cell_coord(map_x, self.max_x),
            cell_coord(map_y, self.min_y),
            cell_coord(map_y, self.max_y),
        )
    }

    /// The bytes of the rectangle.
    pub open spec fn wire(self) -> Seq<u8> {
        seq![self.min_x, self.max_x, self.min_y, self.max_y] + wire_columns(self.columns)
    }

    /// The sprites of the rectangle, given the origin of the chunk.
    pub open spec fn sprites(self, map_x: i32, map_y: i32) -> Seq<MapSprite> {
        columns_sprites(
            self.columns,
            cell_coord(map_x, self.min_x) as int,
            cell_coord(map_y, self.min_y),
        )
    }
}

/// The bytes of a run of rectangles.
pub open spec fn wire_rects(rects: Seq<RectRecord>) -> Seq<u8>
    decreases rects.len(),
{
    if rects.len() == 0 {
        Seq::empty()
    } else {
        rects[0].wire() + wire_rects(rects.drop_first())
    }
}

/// The sprites of a run of rectangles.
pub open spec fn rects_sprites(rects: Seq<RectRecord>, map_x: i32, map_y: i32) -> Seq<MapSprite>
    decreases rects.len(),
{
    if rects.len() == 0 {
        Seq::empty()
    } else {
        rects[0].sprites(map_x, map_y) + rects_sprites(rects.drop_first(), map_x, map_y)
    }
}

/// A whole chunk as it is written.
pub struct ChunkRecord {
    pub map_x: i32,
    pub map_y: i32,
    pub min_x: i32,
    pub min_y: i32,
    pub min_z: i16,
    pub max_x: i32,
    pub max_y: i32,
    pub max_z: i16,
    pub rects: Seq<RectRecord>,
}

impl ChunkRecord {
    /// The count of rectangles fits its 16 bits, and each rectangle holds
    /// the cells that its corners span.
    pub open spec fn wf(self) -> bool {
        &&& self.rects.len() <= 0xffff
        &&& forall|i: int|
            0 <= i < self.rects.len() ==> (#[trigger] self.rects[i]).wf(self.map_x, self.map_y)
    }

    /// The bytes of the header.
    pub open spec fn wire_header(self) -> Seq<u8> {
        wire_32(twos_32(self.min_x)) + wire_32(twos_32(self.min_y)) + wire_16(twos_16(self.min_z))
            + wire_32(twos_32(self.max_x)) + wire_32(twos_32(self.max_y)) + wire_16(
            twos_16(self.max_z),
        ) + wire_32(twos_32(self.map_x)) + wire_32(twos_32(self.map_y)) + wire_16(
            self.rects.len() as u32,
        )
    }

    /// The bytes of the chunk.
    pub open spec fn wire(self) -> Seq<u8> {
        self.wire_header() + wire_rects(self.rects)
    }

    /// The chunk that a reader gets out of the bytes: the header as it is,
    /// and the sprites of all the stacks in the order in which they are
    /// written.
    pub open spec fn decoded(self) -> ChunkModel {
        ChunkModel {
            map_x: self.map_x,
            map_y: self.map_y,
            min_x: self.min_x,
            min_y: self.min_y,
            min_z: self.min_z,
            max_x: self.max_x,
            max_y: self.max_y,
            max_z: self.max_z,
            sprites: rects_sprites(self.rects, self.map_x, self.map_y),
        }
    }
}

/// Reading back one sprite record gives the sprite that was written, and
/// takes all of its bytes.
pub proof fn lemma_read_sprite(bytes: Seq<u8>, at: int, record: SpriteRecord, x: i32, y: i32)
    requires
        record.wf(),
        stored_at(bytes, at, record.wire()),
    ensures
        sprite_fits(bytes, at),
        sprite_len(bytes, at) == record.wire().len(),
        sprite_at(bytes, at, x, y) == record.sprite(x, y),
{
    let wire = record.wire();
    assert(wire.len() == 16 + record.tint.len());
    assert forall|i: int| 0 <= i < 16 implies bytes[at + i] == #[trigger] wire[i] by {
        lemma_stored_byte(bytes, at, wire, i);
    }
    assert(bytes[at] == wire[0]);
    let fixed = wire.subrange(0, 16);
    assert(wire =~= fixed + record.tint);
    lemma_stored_parts(bytes, at, fixed, record.tint);
    assert(stored_at(bytes, at + 1, wire_16(twos_16(record.cell_z)))) by {
        assert(bytes.subrange(at + 1, at + 3) =~= wire_16(twos_16(record.cell_z))) by {
            assert(bytes[at + 1] == wire[1]);
            assert(bytes[at + 2] == wire[2]);
        }
    }
    assert(stored_at(bytes, at + 5, wire_32(twos_32(record.group_key)))) by {
        assert(bytes.subrange(at + 5, at + 9) =~= wire_32(twos_32(record.group_key))) by {
            assert(bytes[at + 5] == wire[5]);
            assert(bytes[at + 6] == wire[6]);
            assert(bytes[at + 7] == wire[7]);
            assert(bytes[at + 8] == wire[8]);
        }
    }
    assert(stored_at(bytes, at + 10, wire_32(twos_32(record.group_id)))) by {
        assert(bytes.subrange(at + 10, at + 14) =~= wire_32(twos_32(record.group_id))) by {
            assert(bytes[at + 10] == wire[10]);
            assert(bytes[at + 11] == wire[11]);
            assert(bytes[at + 12] == wire[12]);
            assert(bytes[at + 13] == wire[13]);
        }
    }
    lemma_read_i16(bytes, at + 1, record.cell_z);
    lemma_read_i32(bytes, at + 5, record.group_key);
    lemma_read_i32(bytes, at + 10, record.group_id);
    assert(bytes[at + 3] == wire[3]);
    assert(bytes[at + 4] == wire[4]);
    assert(bytes[at + 9] == wire[9]);
    assert(bytes[at + 15] == wire[15]);
    assert(bytes.subrange(at + 16, at + sprite_len(bytes, at)) == record.tint);
}

/// Reading back the records of a stack gives its sprites, in order, and
/// takes all of its bytes.
pub proof fn lemma_read_stack(bytes: Seq<u8>, at: int, stack: Stack, x: i32, y: i32)
    requires
        forall|i: int| 0 <= i < stack.len() ==> (#[trigger] stack[i]).wf(),
        stored_at(bytes, at, wire_records(stack)),
    ensures
        parse_stack(bytes, at, stack.len(), x, y) == Some(
            (stack_sprites(stack, x, y), at + wire_records(stack).len()),
        ),
    decreases stack.len(),
{
    if stack.len() > 0 {
        let first = stack[0];
        let others = stack.drop_first();
        lemma_stored_parts(bytes, at, first.wire(), wire_records(others));
        lemma_read_sprite(bytes, at, first, x, y);
        assert forall|i: int| 0 <= i < others.len() implies (#[trigger] others[i]).wf() by {
            assert(others[i] == stack[i + 1]);
        }
        lemma_read_stack(bytes, at + first.wire().len(), others, x, y);
    }
}

/// Reading back one cell gives the sprites of its stack and takes all of
/// its bytes.
pub proof fn lemma_read_cell(bytes: Seq<u8>, at: int, stack: Stack, x: i32, y: i32)
    requires
        stack_wf(stack),
        stored_at(bytes, at, wire_cell(stack)),
    ensures
        parse_cell(bytes, at, x, y) == Some(
            (stack_sprites(stack, x, y), at + wire_cell(stack).len()),
        ),
{
    let count = seq![stack.len() as u8];
    lemma_stored_parts(bytes, at, count, wire_records(stack));
    lemma_stored_byte(bytes, at, count, 0);
    lemma_read_stack(bytes, at + 1, stack, x, y);
}

/// Reading back the cells of one column gives their sprites, cell by cell.
pub proof fn lemma_read_column(
    bytes: Seq<u8>,
    at: int,
    cells: Seq<Stack>,
    x: i32,
    y: i32,
    y_end: i32,
)
    requires
        cells.len() == extent(y, y_end),
        forall|j: int| 0 <= j < cells.len() ==> stack_wf(#[trigger] cells[j]),
        stored_at(bytes, at, wire_column(cells)),
    ensures
        parse_column(bytes, at, x, y, y_end) == Some(
            (column_sprites(cells, x, y as int), at + wire_column(cells).len()),
        ),
    decreases cells.len(),
{
    if cells.len() > 0 {
        let first = cells[0];
        let others = cells.drop_first();
        lemma_stored_parts(bytes, at, wire_cell(first), wire_column(others));
        lemma_read_cell(bytes, at, first, x, y);
        assert forall|j: int| 0 <= j < others.len() implies stack_wf(#[trigger] others[j]) by {
            assert(others[j] == cells[j + 1]);
        }
        lemma_read_column(bytes, at + wire_cell(first).len(), others, x, (y + 1) as i32, y_end);
        let rest = parse_column(bytes, at + wire_cell(first).len(), x, (y + 1) as i32, y_end);
        assert(parse_column(bytes, at, x, y, y_end) == following(stack_sprites(first, x, y), rest));
    }
}

/// Reading back a run of columns gives their sprites, column by column.
pub proof fn lemma_read_columns(
    bytes: Seq<u8>,
    at: int,
    columns: Seq<Seq<Stack>>,
    x: i32,
    x_end: i32,
    y: i32,
    y_end: i32,
)
    requires
        columns_wf(columns, x, x_end, y, y_end),
        stored_at(bytes, at, wire_columns(columns)),
    ensures
        parse_columns(bytes, at, x, x_end, y, y_end) == Some(
            (columns_sprites(columns, x as int, y), at + wire_columns(columns).len()),
        ),
    decreases columns.len(),
{
    if columns.len() > 0 {
        let first = columns[0];
        let others = columns.drop_first();
        lemma_stored_parts(bytes, at, wire_column(first), wire_columns(others));
        assert forall|j: int| 0 <= j < first.len() implies stack_wf(#[trigger] first[j]) by {
            assert(first[j] == columns[0][j]);
        }
        lemma_read_column(bytes, at, first, x, y, y_end);
        assert(columns_wf(others, (x + 1) as i32, x_end, y, y_end)) by {
            assert forall|i: int| 0 <= i < others.len() implies (#[trigger] others[i]).len()
                == extent(y, y_end) by {
                assert(others[i] == columns[i + 1]);
            }
            assert forall|i: int, j: int|
                0 <= i < others.len() && 0 <= j < others[i].len() implies stack_wf(
                #[trigger] others[i][j],
            ) by {
                assert(others[i] == columns[i + 1]);
                assert(others[i][j] == columns[i + 1][j]);
            }
        }
        lemma_read_columns(
            bytes,
            at + wire_column(first).len(),
            others,
            (x + 1) as i32,
            x_end,
            y,
            y_end,
        );
    }
}

/// Reading back one rectangle gives the sprites of its cells.
pub proof fn lemma_read_rect(bytes: Seq<u8>, at: int, rect: RectRecord, map_x: i32, map_y: i32)
    requires
        rect.wf(map_x, map_y),
        stored_at(bytes, at, rect.wire()),
    ensures
        parse_rect(bytes, at, map_x, map_y) == Some(
            (rect.sprites(map_x, map_y), at + rect.wire().len()),
        ),
{
    let corners = seq![rect.min_x, rect.max_x, rect.min_y, rect.max_y];
    lemma_stored_parts(bytes, at, corners, wire_columns(rect.columns));
    lemma_stored_byte(bytes, at, corners, 0);
    lemma_stored_byte(bytes, at, corners, 1);
    lemma_stored_byte(bytes, at, corners, 2);
    lemma_stored_byte(bytes, at, corners, 3);
    lemma_read_columns(
        bytes,
        at + 4,
        rect.columns,
        cell_coord(map_x, rect.min_x),
        cell_coord(map_x, rect.max_x),
        cell_coord(map_y, rect.min_y),
        cell_coord(map_y, rect.max_y),
    );
}

/// Reading back a run of rectangles gives their sprites, rectangle by
/// rectangle.
pub proof fn lemma_read_rects(
    bytes: Seq<u8>,
    at: int,
    rects: Seq<RectRecord>,
    map_x: i32,
    map_y: i32,
)
    requires
        forall|i: int| 0 <= i < rects.len() ==> (#[trigger] rects[i]).wf(map_x, map_y),
        stored_at(bytes, at, wire_rects(rects)),
    ensures
        parse_rects(bytes, at, rects.len(), map_x, map_y) == Some(
            (rects_sprites(rects, map_x, map_y), at + wire_rects(rects).len()),
        ),
    decreases rects.len(),
{
    if rects.len() > 0 {
        let first = rects[0];
        let others = rects.drop_first();
        lemma_stored_parts(bytes, at, first.wire(), wire_rects(others));
        lemma_read_rect(bytes, at, first, map_x, map_y);
        assert forall|i: int| 0 <= i < others.len() implies (#[trigger] others[i]).wf(
            map_x,
            map_y,
        ) by {
            assert(others[i] == rects[i + 1]);
        }
        lemma_read_rects(bytes, at + first.wire().len(), others, map_x, map_y);
    }
}

/// A signed 32-bit number stored right after `before` is read back from
/// there.
proof fn lemma_read_next_i32(bytes: Seq<u8>, before: Seq<u8>, v: i32)
    requires
        stored_at(bytes, 0, before + wire_32(twos_32(v))),
    ensures
        stored_at(bytes, 0, before),
        le_i32(bytes, before.len() as int) == v,
{
    lemma_stored_parts(bytes, 0, before, wire_32(twos_32(v)));
    lemma_read_i32(bytes, before.len() as int, v);
}

/// A signed 16-bit number stored right after `before` is read back from
/// there.
proof fn lemma_read_next_i16(bytes: Seq<u8>, before: Seq<u8>, v: i16)
    requires
        stored_at(bytes, 0, before + wire_16(twos_16(v))),
    ensures
        stored_at(bytes, 0, before),
        le_i16(bytes, before.len() as int) == v,
{
    lemma_stored_parts(bytes, 0, before, wire_16(twos_16(v)));
    lemma_read_i16(bytes, before.len() as int, v);
}

/// Reading back the header gives the fields that were written.
pub proof fn lemma_read_header(bytes: Seq<u8>, chunk: ChunkRecord)
    requires
        chunk.rects.len() <= 0xffff,
        stored_at(bytes, 0, chunk.wire_header()),
    ensures
        chunk.wire_header().len() == 30,
        le_i32(bytes, 0) == chunk.min_x,
        le_i32(bytes, 4) == chunk.min_y,
        le_i16(bytes, 8) == chunk.min_z,
        le_i32(bytes, 10) == chunk.max_x,
        le_i32(bytes, 14) == chunk.max_y,
        le_i16(bytes, 18) == chunk.max_z,
        le_i32(bytes, 20) == chunk.map_x,
        le_i32(bytes, 24) == chunk.map_y,
        le_u16(bytes, 28) == chunk.rects.len(),
{
    let h1 = wire_32(twos_32(chunk.min_x));
    let h2 = h1 + wire_32(twos_32(chunk.min_y));
    let h3 = h2 + wire_16(twos_16(chunk.min_z));
    let h4 = h3 + wire_32(twos_32(chunk.max_x));
    let h5 = h4 + wire_32(twos_32(chunk.max_y));
    let h6 = h5 + wire_16(twos_16(chunk.max_z));
    let h7 = h6 + wire_32(twos_32(chunk.map_x));
    let h8 = h7 + wire_32(twos_32(chunk.map_y));
    let count = chunk.rects.len() as u16;
    assert(chunk.wire_header() == h8 + wire_16(count as u32));
    lemma_stored_parts(bytes, 0, h8, wire_16(count as u32));
    lemma_read_u16(bytes, 28, count);
    lemma_read_next_i32(bytes, h7, chunk.map_y);
    lemma_read_next_i32(bytes, h6, chunk.map_x);
    lemma_read_next_i16(bytes, h5, chunk.max_z);
    lemma_read_next_i32(bytes, h4, chunk.max_y);
    lemma_read_next_i32(bytes, h3, chunk.max_x);
    lemma_read_next_i16(bytes, h2, chunk.min_z);
    lemma_read_next_i32(bytes, h1, chunk.min_y);
    lemma_read_i32(bytes, 0, chunk.min_x);
}

/// Round trip: a buffer that starts with the bytes of a chunk decodes to
/// that chunk, with every sprite of every stack in the order written and
/// with the fields written, and the decoder stops right after those bytes,
/// whatever follows them.
pub proof fn lemma_read_chunk(chunk: ChunkRecord, trailing: Seq<u8>)
    requires
        chunk.wf(),
    ensures
        parse_chunk(chunk.wire() + trailing) == Some((chunk.decoded(), chunk.wire().len() as int)),
{
    let bytes = chunk.wire() + trailing;
    let header = chunk.wire_header();
    let body = wire_rects(chunk.rects);
    assert(bytes.subrange(0, chunk.wire().len() as int) =~= chunk.wire());
    assert(stored_at(bytes, 0, header + body));
    lemma_stored_parts(bytes, 0, header, body);
    lemma_read_header(bytes, chunk);
    lemma_read_rects(bytes, 30, chunk.rects, chunk.map_x, chunk.map_y);
}

/// The number of records in the cells of one column.
pub open spec fn column_records(cells: Seq<Stack>) -> nat
    decreases cells.len(),
{
    if cells.len() == 0 {
        0
    } else {
        cells[0].len() + column_records(cells.drop_first())
    }
}

/// The number of records in a run of columns.
pub open spec fn columns_records(columns: Seq<Seq<Stack>>) -> nat
    decreases columns.len(),
{
    if columns.len() == 0 {
        0
    } else {
        column_records(columns[0]) + columns_records(columns.drop_first())
    }
}

/// The number of records in a run of rectangles.
pub open spec fn rects_records(rects: Seq<RectRecord>) -> nat
    decreases rects.len(),
{
    if rects.len() == 0 {
        0
    } else {
        columns_records(rects[0].columns) + rects_records(rects.drop_first())
    }
}

/// A stack yields one sprite per record, in the order of the records.
pub proof fn lemma_stack_sprites(stack: Stack, x: i32, y: i32)
    ensures
        stack_sprites(stack, x, y).len() == stack.len(),
        forall|i: int|
            0 <= i < stack.len() ==> #[trigger] stack_sprites(stack, x, y)[i] == stack[i].sprite(
                x,
                y,
            ),
    decreases stack.len(),
{
    if stack.len() > 0 {
        let others = stack.drop_first();
        lemma_stack_sprites(others, x, y);
        assert forall|i: int| 0 <= i < stack.len() implies #[trigger] stack_sprites(stack, x, y)[i]
            == stack[i].sprite(x, y) by {
            if i > 0 {
                assert(stack_sprites(others, x, y)[i - 1] == others[i - 1].sprite(x, y));
                assert(others[i - 1] == stack[i]);
            }
        }
    }
}

/// A column yields as many sprites as its cells hold records.
pub proof fn lemma_column_count(cells: Seq<Stack>, x: i32, y: int)
    ensures
        column_sprites(cells, x, y).len() == column_records(cells),
    decreases cells.len(),
{
    if cells.len() > 0 {
        lemma_stack_sprites(cells[0], x, y as i32);
        lemma_column_count(cells.drop_first(), x, y + 1);
    }
}

/// A run of columns yields as many sprites as its cells hold records.
pub proof fn lemma_columns_count(columns: Seq<Seq<Stack>>, x: int, y: i32)
    ensures
        columns_sprites(columns, x, y).len() == columns_records(columns),
    decreases columns.len(),
{
    if columns.len() > 0 {
        lemma_column_count(columns[0], x as i32, y as int);
        lemma_columns_count(columns.drop_first(), x + 1, y);
    }
}

/// A chunk decodes to as many sprites as the stacks of all the cells of all
/// its rectangles hold records.
pub proof fn lemma_sprite_count(rects: Seq<RectRecord>, map_x: i32, map_y: i32)
    ensures
        rects_sprites(rects, map_x, map_y).len() == rects_records(rects),
    decreases rects.len(),
{
    if rects.len() > 0 {
        lemma_columns_count(
            rects[0].columns,
            cell_coord(map_x, rects[0].min_x) as int,
            cell_coord(map_y, rects[0].min_y),
        );
        lemma_sprite_count(rects.drop_first(), map_x, map_y);
    }
}

} // verus!
