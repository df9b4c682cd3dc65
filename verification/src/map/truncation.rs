//! What cutting a buffer short does to decoding: nothing, as long as the
//! chunk is left whole, and failure as soon as one of its bytes is gone.

use crate::map::chunk::{
    cell_coord, parse_cell, parse_chunk, parse_column, parse_columns, parse_rect, parse_rects,
    parse_stack, ChunkModel, Parsed,
};
use crate::map::cursor::{le_i32, le_u16};
use crate::map::sprite::{sprite_at, sprite_fits, sprite_len};
use crate::map::wire::{lemma_read_chunk, ChunkRecord};
use vstd::prelude::*;

verus! {

/// `parsed`, if it ends within the first `n` bytes.
pub open spec fn within(parsed: Parsed, n: int) -> Parsed {
    match parsed {
        Some((sprites, end)) => if end <= n {
            Some((sprites, end))
        } else {
            None
        },
        None => None,
    }
}

/// A stack ends no earlier than it starts.
pub proof fn lemma_stack_end(bytes: Seq<u8>, at: int, count: nat, x: i32, y: i32)
    ensures
        parse_stack(bytes, at, count, x, y) is Some ==> parse_stack(bytes, at, count, x, y)->Some_0.1
            >= at,
    decreases count,
{
    if count > 0 && sprite_fits(bytes, at) {
        lemma_stack_end(bytes, at + sprite_len(bytes, at), (count - 1) as nat, x, y);
    }
}

/// A column ends no earlier than it starts.
pub proof fn lemma_column_end(bytes: Seq<u8>, at: int, x: i32, y: i32, y_end: i32)
    ensures
        parse_column(bytes, at, x, y, y_end) is Some ==> parse_column(
            bytes,
            at,
            x,
            y,
            y_end,
        )->Some_0.1 >= at,
    decreases y_end - y,
{
    if y < y_end {
        if let Some((_, next)) = parse_cell(bytes, at, x, y) {
            lemma_stack_end(bytes, at + 1, bytes[at] as nat, x, y);
            lemma_column_end(bytes, next, x, (y + 1) as i32, y_end);
        }
    }
}

/// A run of columns ends no earlier than it starts.
pub proof fn lemma_columns_end(bytes: Seq<u8>, at: int, x: i32, x_end: i32, y: i32, y_end: i32)
    ensures
        parse_columns(bytes, at, x, x_end, y, y_end) is Some ==> parse_columns(
            bytes,
            at,
            x,
            x_end,
            y,
            y_end,
        )->Some_0.1 >= at,
    decreases x_end - x,
{
    if x < x_end {
        if let Some((_, next)) = parse_column(bytes, at, x, y, y_end) {
            lemma_column_end(bytes, at, x, y, y_end);
            lemma_columns_end(bytes, next, (x + 1) as i32, x_end, y, y_end);
        }
    }
}

/// A run of rectangles ends no earlier than it starts.
pub proof fn lemma_rects_end(bytes: Seq<u8>, at: int, count: nat, map_x: i32, map_y: i32)
    ensures
        parse_rects(bytes, at, count, map_x, map_y) is Some ==> parse_rects(
            bytes,
            at,
            count,
            map_x,
            map_y,
        )->Some_0.1 >= at,
    decreases count,
{
    if count > 0 {
        if let Some((_, next)) = parse_rect(bytes, at, map_x, map_y) {
            lemma_columns_end(
                bytes,
                at + 4,
                cell_coord(map_x, bytes[at]),
                cell_coord(map_x, bytes[at + 1]),
                cell_coord(map_y, bytes[at + 2]),
                cell_coord(map_y, bytes[at + 3]),
            );
            lemma_rects_end(bytes, next, (count - 1) as nat, map_x, map_y);
        }
    }
}

/// A sprite record is read from the first `n` bytes as from the whole
/// buffer, if it lies within them, and not at all otherwise.
pub proof fn lemma_sprite_cut(bytes: Seq<u8>, n: int, at: int, x: i32, y: i32)
    requires
        0 <= at <= n <= bytes.len(),
    ensures
        sprite_fits(bytes.subrange(0, n), at) <==> sprite_fits(bytes, at) && at + sprite_len(
            bytes,
            at,
        ) <= n,
        sprite_fits(bytes.subrange(0, n), at) ==> sprite_len(bytes.subrange(0, n), at)
            == sprite_len(bytes, at) && sprite_at(bytes.subrange(0, n), at, x, y) == sprite_at(
            bytes,
            at,
            x,
            y,
        ),
{
    let cut = bytes.subrange(0, n);
    if at + 16 <= n {
        assert(cut[at] == bytes[at]);
        if at + sprite_len(bytes, at) <= n {
            assert(cut.subrange(at + 16, at + sprite_len(bytes, at)) =~= bytes.subrange(
                at + 16,
                at + sprite_len(bytes, at),
            ));
        }
    }
}

/// A stack is read from the first `n` bytes as from the whole buffer, if it
/// ends within them, and not at all otherwise.
pub proof fn lemma_stack_cut(bytes: Seq<u8>, n: int, at: int, count: nat, x: i32, y: i32)
    requires
        0 <= at <= n <= bytes.len(),
    ensures
        parse_stack(bytes.subrange(0, n), at, count, x, y) == within(
            parse_stack(bytes, at, count, x, y),
            n,
        ),
    decreases count,
{
    if count > 0 {
        lemma_sprite_cut(bytes, n, at, x, y);
        if sprite_fits(bytes, at) {
            let next = at + sprite_len(bytes, at);
            lemma_stack_end(bytes, next, (count - 1) as nat, x, y);
            if next <= n {
                lemma_stack_cut(bytes, n, next, (count - 1) as nat, x, y);
            }
        }
    }
}

/// The same for one cell.
pub proof fn lemma_cell_cut(bytes: Seq<u8>, n: int, at: int, x: i32, y: i32)
    requires
        0 <= at <= n <= bytes.len(),
    ensures
        parse_cell(bytes.subrange(0, n), at, x, y) == within(parse_cell(bytes, at, x, y), n),
{
    if at + 1 <= n {
        assert(bytes.subrange(0, n)[at] == bytes[at]);
        lemma_stack_cut(bytes, n, at + 1, bytes[at] as nat, x, y);
    } else if at + 1 <= bytes.len() {
        lemma_stack_end(bytes, at + 1, bytes[at] as nat, x, y);
    }
}

/// The same for the cells of one column.
pub proof fn lemma_column_cut(bytes: Seq<u8>, n: int, at: int, x: i32, y: i32, y_end: i32)
    requires
        0 <= at <= n <= bytes.len(),
    ensures
        parse_column(bytes.subrange(0, n), at, x, y, y_end) == within(
            parse_column(bytes, at, x, y, y_end),
            n,
        ),
    decreases y_end - y,
{
    if y < y_end {
        lemma_cell_cut(bytes, n, at, x, y);
        if let Some((_, next)) = parse_cell(bytes, at, x, y) {
            lemma_stack_end(bytes, at + 1, bytes[at] as nat, x, y);
            lemma_column_end(bytes, next, x, (y + 1) as i32, y_end);
            if next <= n {
                lemma_column_cut(bytes, n, next, x, (y + 1) as i32, y_end);
            }
        }
    }
}

/// The same for a run of columns.
pub proof fn lemma_columns_cut(
    bytes: Seq<u8>,
    n: int,
    at: int,
    x: i32,
    x_end: i32,
    y: i32,
    y_end: i32,
)
    requires
        0 <= at <= n <= bytes.len(),
    ensures
        parse_columns(bytes.subrange(0, n), at, x, x_end, y, y_end) == within(
            parse_columns(bytes, at, x, x_end, y, y_end),
            n,
        ),
    decreases x_end - x,
{
    if x < x_end {
        lemma_column_cut(bytes, n, at, x, y, y_end);
        if let Some((_, next)) = parse_column(bytes, at, x, y, y_end) {
            lemma_column_end(bytes, at, x, y, y_end);
            lemma_columns_end(bytes, next, (x + 1) as i32, x_end, y, y_end);
            if next <= n {
                lemma_columns_cut(bytes, n, next, (x + 1) as i32, x_end, y, y_end);
            }
        }
    }
}

/// The same for one rectangle.
pub proof fn lemma_rect_cut(bytes: Seq<u8>, n: int, at: int, map_x: i32, map_y: i32)
    requires
        0 <= at <= n <= bytes.len(),
    ensures
        parse_rect(bytes.subrange(0, n), at, map_x, map_y) == within(
            parse_rect(bytes, at, map_x, map_y),
            n,
        ),
{
    let cut = bytes.subrange(0, n);
    if at + 4 <= bytes.len() {
        let x = cell_coord(map_x, bytes[at]);
        let x_end = cell_coord(map_x, bytes[at + 1]);
        let y = cell_coord(map_y, bytes[at + 2]);
        let y_end = cell_coord(map_y, bytes[at + 3]);
        lemma_columns_end(bytes, at + 4, x, x_end, y, y_end);
        if at + 4 <= n {
            assert(cut[at] == bytes[at]);
            assert(cut[at + 1] == bytes[at + 1]);
            assert(cut[at + 2] == bytes[at + 2]);
            assert(cut[at + 3] == bytes[at + 3]);
            lemma_columns_cut(bytes, n, at + 4, x, x_end, y, y_end);
        }
    }
}

/// The same for a run of rectangles.
pub proof fn lemma_rects_cut(
    bytes: Seq<u8>,
    n: int,
    at: int,
    count: nat,
    map_x: i32,
    map_y: i32,
)
    requires
        0 <= at <= n <= bytes.len(),
    ensures
        parse_rects(bytes.subrange(0, n), at, count, map_x, map_y) == within(
            parse_rects(bytes, at, count, map_x, map_y),
            n,
        ),
    decreases count,
{
    if count > 0 {
        lemma_rect_cut(bytes, n, at, map_x, map_y);
        if let Some((_, next)) = parse_rect(bytes, at, map_x, map_y) {
            lemma_columns_end(
                bytes,
                at + 4,
                cell_coord(map_x, bytes[at]),
                cell_coord(map_x, bytes[at + 1]),
                cell_coord(map_y, bytes[at + 2]),
                cell_coord(map_y, bytes[at + 3]),
            );
            lemma_rects_end(bytes, next, (count - 1) as nat, map_x, map_y);
            if next <= n {
                lemma_rects_cut(bytes, n, next, (count - 1) as nat, map_x, map_y);
            }
        }
    }
}

/// Decoding the first `n` bytes of a buffer gives what decoding the whole
/// buffer gives, if the chunk ends within those bytes, and fails otherwise:
/// what follows a chunk is not looked at, and a chunk with a byte missing is
/// no chunk.
pub proof fn lemma_chunk_cut(bytes: Seq<u8>, n: int)
    requires
        0 <= n <= bytes.len(),
    ensures
        parse_chunk(bytes.subrange(0, n)) == match parse_chunk(bytes) {
            Some((chunk, end)) => if end <= n {
                Some((chunk, end))
            } else {
                None::<(ChunkModel, int)>
            },
            None => None,
        },
{
    let cut = bytes.subrange(0, n);
    if bytes.len() >= 30 {
        let map_x = le_i32(bytes, 20);
        let map_y = le_i32(bytes, 24);
        let count = le_u16(bytes, 28) as nat;
        lemma_rects_end(bytes, 30, count, map_x, map_y);
        if n >= 30 {
            assert forall|i: int| 0 <= i < 30 implies cut[i] == bytes[i] by {}
            lemma_rects_cut(bytes, n, 30, count, map_x, map_y);
        }
    }
}

/// Truncation: no proper prefix of the bytes of a chunk decodes.
pub proof fn lemma_truncated_chunk(chunk: ChunkRecord, n: int)
    requires
        chunk.wf(),
        0 <= n < chunk.wire().len(),
    ensures
        parse_chunk(chunk.wire().subrange(0, n)) is None,
{
    lemma_read_chunk(chunk, Seq::empty());
    assert(chunk.wire() + Seq::<u8>::empty() =~= chunk.wire());
    lemma_chunk_cut(chunk.wire(), n);
}

} // verus!
