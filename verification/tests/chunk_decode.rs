use map_chunk::map::chunk::{MapChunk, HEADER_LEN};
use map_chunk::map::color::{size_from_tag, LinearColor};
use map_chunk::map::cursor::{Cursor, DecodeError};
use map_chunk::map::sprite::{MapSprite, SPRITE_FIXED_LEN};

/// A sprite record as a writer sees it.
#[derive(Clone)]
struct Record {
    tag: u8,
    cell_z: i16,
    height: u8,
    altitude_order: u8,
    group_key: i32,
    layer: u8,
    group_id: i32,
    occluder: bool,
    element_id: u8,
    tint: Vec<u8>,
}

/// A rectangle as a writer sees it: corner bytes, and one stack per cell,
/// first axis outermost.
struct Rect {
    corners: [u8; 4],
    cells: Vec<Vec<Record>>,
}

struct Header {
    min: (i32, i32, i16),
    max: (i32, i32, i16),
    origin: (i32, i32),
}

fn write_record(out: &mut Vec<u8>, r: &Record) {
    assert_eq!(r.tint.len(), size_from_tag(r.tag));
    out.push(r.tag);
    out.extend_from_slice(&r.cell_z.to_le_bytes());
    out.push(r.height);
    out.push(r.altitude_order);
    out.extend_from_slice(&r.group_key.to_le_bytes());
    out.push(r.layer);
    out.extend_from_slice(&r.group_id.to_le_bytes());
    out.push(if r.occluder { 1 } else { 0 });
    out.push(r.element_id);
    out.extend_from_slice(&r.tint);
}

fn write_chunk(header: &Header, rects: &[Rect]) -> Vec<u8> {
    let mut out = Vec::new();
    out.extend_from_slice(&header.min.0.to_le_bytes());
    out.extend_from_slice(&header.min.1.to_le_bytes());
    out.extend_from_slice(&header.min.2.to_le_bytes());
    out.extend_from_slice(&header.max.0.to_le_bytes());
    out.extend_from_slice(&header.max.1.to_le_bytes());
    out.extend_from_slice(&header.max.2.to_le_bytes());
    out.extend_from_slice(&header.origin.0.to_le_bytes());
    out.extend_from_slice(&header.origin.1.to_le_bytes());
    out.extend_from_slice(&(rects.len() as u16).to_le_bytes());
    for rect in rects {
        out.extend_from_slice(&rect.corners);
        for stack in &rect.cells {
            out.push(stack.len() as u8);
            for record in stack {
                write_record(&mut out, record);
            }
        }
    }
    out
}

fn record(seed: u8, tag: u8) -> Record {
    Record {
        tag,
        cell_z: -300 + seed as i16,
        height: seed.wrapping_mul(3),
        altitude_order: seed.wrapping_add(100),
        group_key: -1_000_000 + seed as i32,
        layer: seed.wrapping_mul(7),
        group_id: 0x0102_0304 + seed as i32,
        occluder: seed % 2 == 1,
        element_id: 255 - seed,
        tint: (0..size_from_tag(tag)).map(|i| seed.wrapping_add(i as u8 * 40)).collect(),
    }
}

fn plain_header() -> Header {
    Header { min: (-5, -6, -7), max: (50, 60, 70), origin: (1000, -2000) }
}

const WHITE: LinearColor = LinearColor { red: 510, green: 510, blue: 510, alpha: 510 };

#[test]
fn header_length_is_thirty() {
    assert_eq!(HEADER_LEN, 30);
    assert_eq!(SPRITE_FIXED_LEN, 16);
    assert_eq!(write_chunk(&plain_header(), &[]).len(), HEADER_LEN);
}

#[test]
fn no_rectangles_decodes_to_empty_sprite_list() {
    let bytes = write_chunk(&plain_header(), &[]);
    let (chunk, used) = MapChunk::try_read(&bytes).unwrap();
    assert_eq!(used, 30);
    assert!(chunk.sprites.is_empty());
    assert_eq!((chunk.min_x, chunk.min_y, chunk.min_z), (-5, -6, -7));
    assert_eq!((chunk.max_x, chunk.max_y, chunk.max_z), (50, 60, 70));
    assert_eq!((chunk.map_x, chunk.map_y), (1000, -2000));
}

#[test]
fn header_fields_are_little_endian() {
    let mut bytes = vec![0u8; 30];
    bytes[0..4].copy_from_slice(&[0x01, 0x02, 0x03, 0x04]);
    bytes[4..8].copy_from_slice(&[0xff, 0xff, 0xff, 0xff]);
    bytes[8..10].copy_from_slice(&[0x00, 0x80]);
    bytes[10..14].copy_from_slice(&[0x00, 0x00, 0x00, 0x80]);
    bytes[14..18].copy_from_slice(&[0xff, 0xff, 0xff, 0x7f]);
    bytes[18..20].copy_from_slice(&[0x34, 0x12]);
    bytes[20..24].copy_from_slice(&[0x10, 0x00, 0x00, 0x00]);
    bytes[24..28].copy_from_slice(&[0x00, 0x01, 0x00, 0x00]);
    let (chunk, used) = MapChunk::try_read(&bytes).unwrap();
    assert_eq!(used, 30);
    assert_eq!(chunk.min_x, 0x04030201);
    assert_eq!(chunk.min_y, -1);
    assert_eq!(chunk.min_z, i16::MIN);
    assert_eq!(chunk.max_x, i32::MIN);
    assert_eq!(chunk.max_y, i32::MAX);
    assert_eq!(chunk.max_z, 0x1234);
    assert_eq!(chunk.map_x, 16);
    assert_eq!(chunk.map_y, 256);
}

#[test]
fn round_trip_keeps_count_order_and_fields() {
    let header = plain_header();
    // 2 x 2 cells, then 1 x 3 cells.
    let first = Rect {
        corners: [3, 5, 10, 12],
        cells: vec![
            vec![record(1, 0x0a), record(2, 0x02)],
            vec![],
            vec![record(3, 0x00)],
            vec![record(4, 0x1f), record(5, 0x12), record(6, 0x09)],
        ],
    };
    let second = Rect {
        corners: [0, 1, 200, 203],
        cells: vec![vec![record(7, 0x04)], vec![record(8, 0x01)], vec![]],
    };
    let bytes = write_chunk(&header, &[first, second]);
    let (chunk, used) = MapChunk::try_read(&bytes).unwrap();
    assert_eq!(used, bytes.len());
    assert_eq!(chunk.sprites.len(), 8);

    let cells = [
        (1003, -1990),
        (1003, -1990),
        (1004, -1990),
        (1004, -1989),
        (1004, -1989),
        (1004, -1989),
        (1000, -1800),
        (1000, -1799),
    ];
    let tags = [0x0au8, 0x02, 0x00, 0x1f, 0x12, 0x09, 0x04, 0x01];
    for (i, sprite) in chunk.sprites.iter().enumerate() {
        let seed = i as u8 + 1;
        let written = record(seed, tags[i]);
        assert_eq!((sprite.cell_x, sprite.cell_y), cells[i], "sprite {}", i);
        assert_eq!(sprite.cell_z, written.cell_z);
        assert_eq!(sprite.height, written.height);
        assert_eq!(sprite.altitude_order, written.altitude_order);
        assert_eq!(sprite.group_key, written.group_key);
        assert_eq!(sprite.layer, written.layer);
        assert_eq!(sprite.group_id, written.group_id);
        assert_eq!(sprite.element_id, written.element_id);
    }
    // Seed 1, four bytes 1, 41, 81, 121.
    assert_eq!(
        chunk.sprites[0].color,
        LinearColor { red: 514, green: 674, blue: 834, alpha: 497 }
    );
    // Seed 2, three bytes 2, 42, 82.
    assert_eq!(
        chunk.sprites[1].color,
        LinearColor { red: 518, green: 678, blue: 838, alpha: 510 }
    );
    assert_eq!(chunk.sprites[2].color, WHITE);
    assert_eq!(chunk.sprites[3].color, WHITE);
    assert_eq!(chunk.sprites[4].color, WHITE);
    // Seed 6, four bytes 6, 46, 86, 126.
    assert_eq!(
        chunk.sprites[5].color,
        LinearColor { red: 534, green: 694, blue: 854, alpha: 507 }
    );
}

#[test]
fn one_sprite_exact_values() {
    let mut bytes = write_chunk(
        &Header { min: (0, 0, 0), max: (0, 0, 0), origin: (10, 20) },
        &[],
    );
    bytes[28] = 1;
    bytes.extend_from_slice(&[2, 3, 4, 5]);
    bytes.push(1);
    bytes.extend_from_slice(&[
        0x0a, // tag: four tint bytes
        0xfe, 0xff, // cell_z = -2
        9,    // height
        8,    // altitude order
        0x01, 0x00, 0x00, 0x80, // group key
        7,    // layer
        0xff, 0xff, 0xff, 0x7f, // group id
        1,    // occluder
        42,   // element id
        0, 0, 0, 255,
    ]);
    let (chunk, used) = MapChunk::try_read(&bytes).unwrap();
    assert_eq!(used, 30 + 4 + 1 + 20);
    assert_eq!(
        chunk.sprites,
        vec![MapSprite {
            cell_x: 12,
            cell_y: 24,
            cell_z: -2,
            height: 9,
            altitude_order: 8,
            element_id: 42,
            group_key: i32::MIN + 1,
            group_id: i32::MAX,
            layer: 7,
            color: LinearColor { red: 510, green: 510, blue: 510, alpha: 253 },
        }]
    );
}

#[test]
fn empty_cell_yields_nothing_and_is_passed() {
    let rect = Rect {
        corners: [0, 1, 0, 3],
        cells: vec![vec![], vec![record(9, 0x02)], vec![]],
    };
    let bytes = write_chunk(&plain_header(), &[rect]);
    assert_eq!(bytes.len(), 30 + 4 + 1 + (1 + 16 + 3) + 1);
    let (chunk, used) = MapChunk::try_read(&bytes).unwrap();
    assert_eq!(used, bytes.len());
    assert_eq!(chunk.sprites.len(), 1);
    assert_eq!((chunk.sprites[0].cell_x, chunk.sprites[0].cell_y), (1000, -1999));
    assert_eq!(chunk.sprites[0].element_id, 246);
}

#[test]
fn all_cells_empty() {
    let rect = Rect { corners: [0, 2, 0, 2], cells: vec![vec![], vec![], vec![], vec![]] };
    let bytes = write_chunk(&plain_header(), &[rect]);
    let (chunk, used) = MapChunk::try_read(&bytes).unwrap();
    assert_eq!(used, 30 + 4 + 4);
    assert!(chunk.sprites.is_empty());
}

#[test]
fn empty_rectangles_hold_no_cells() {
    let rects = [
        Rect { corners: [4, 4, 0, 9], cells: vec![] },
        Rect { corners: [0, 9, 7, 7], cells: vec![] },
        Rect { corners: [9, 2, 0, 1], cells: vec![] },
        Rect { corners: [0, 1, 9, 2], cells: vec![] },
        Rect { corners: [0, 1, 0, 1], cells: vec![vec![record(1, 0x00)]] },
    ];
    let bytes = write_chunk(&plain_header(), &rects);
    let (chunk, used) = MapChunk::try_read(&bytes).unwrap();
    assert_eq!(used, 30 + 4 * 5 + 1 + 16);
    assert_eq!(chunk.sprites.len(), 1);
    assert_eq!((chunk.sprites[0].cell_x, chunk.sprites[0].cell_y), (1000, -2000));
}

#[test]
fn cells_run_first_axis_outermost() {
    let cells: Vec<Vec<Record>> = (0..6).map(|i| vec![record(i, 0x00)]).collect();
    let rect = Rect { corners: [1, 3, 5, 8], cells };
    let bytes = write_chunk(
        &Header { min: (0, 0, 0), max: (0, 0, 0), origin: (0, 0) },
        &[rect],
    );
    let (chunk, _) = MapChunk::try_read(&bytes).unwrap();
    let seen: Vec<(i32, i32, u8)> =
        chunk.sprites.iter().map(|s| (s.cell_x, s.cell_y, s.element_id)).collect();
    assert_eq!(
        seen,
        vec![(1, 5, 255), (1, 6, 254), (1, 7, 253), (2, 5, 252), (2, 6, 251), (2, 7, 250)]
    );
}

#[test]
fn full_stack_of_255() {
    let stack: Vec<Record> = (0..255u8).map(|i| record(i, 0x00)).collect();
    let rect = Rect { corners: [0, 1, 0, 1], cells: vec![stack] };
    let bytes = write_chunk(&plain_header(), &[rect]);
    let (chunk, used) = MapChunk::try_read(&bytes).unwrap();
    assert_eq!(used, 30 + 4 + 1 + 255 * 16);
    assert_eq!(chunk.sprites.len(), 255);
    assert_eq!(chunk.sprites[254].element_id, 1);
}

#[test]
fn trailing_bytes_are_left_alone() {
    let rect = Rect { corners: [0, 1, 0, 1], cells: vec![vec![record(1, 0x02)]] };
    let mut bytes = write_chunk(&plain_header(), &[rect]);
    let chunk_len = bytes.len();
    bytes.extend_from_slice(&[0xde, 0xad, 0xbe, 0xef]);
    let (chunk, used) = MapChunk::try_read(&bytes).unwrap();
    assert_eq!(used, chunk_len);
    assert_eq!(chunk.sprites.len(), 1);
}

#[test]
fn short_header_is_truncated() {
    let bytes = write_chunk(&plain_header(), &[]);
    for len in 0..30 {
        assert!(
            matches!(MapChunk::try_read(&bytes[..len]), Err(DecodeError::Truncated)),
            "length {}",
            len
        );
    }
    assert!(MapChunk::try_read(&bytes[..30]).is_ok());
}

#[test]
fn every_proper_prefix_is_truncated() {
    let rects = [
        Rect {
            corners: [0, 2, 0, 1],
            cells: vec![vec![record(1, 0x0a), record(2, 0x1f)], vec![]],
        },
        Rect { corners: [5, 5, 0, 0], cells: vec![] },
        Rect { corners: [0, 1, 0, 1], cells: vec![vec![record(3, 0x00)]] },
    ];
    let bytes = write_chunk(&plain_header(), &rects);
    for len in 0..bytes.len() {
        assert!(
            matches!(MapChunk::try_read(&bytes[..len]), Err(DecodeError::Truncated)),
            "length {}",
            len
        );
    }
    let (chunk, used) = MapChunk::try_read(&bytes).unwrap();
    assert_eq!(used, bytes.len());
    assert_eq!(chunk.sprites.len(), 3);
}

#[test]
fn missing_rectangle_is_truncated() {
    let mut bytes = write_chunk(&plain_header(), &[]);
    bytes[28] = 2;
    bytes.extend_from_slice(&[0, 0, 0, 0]);
    assert!(matches!(MapChunk::try_read(&bytes), Err(DecodeError::Truncated)));
}

#[test]
fn cell_coordinates_wrap() {
    let rect = Rect { corners: [1, 2, 3, 4], cells: vec![vec![record(1, 0x00)]] };
    let bytes = write_chunk(
        &Header { min: (0, 0, 0), max: (0, 0, 0), origin: (i32::MAX, i32::MAX - 2) },
        &[rect],
    );
    let (chunk, used) = MapChunk::try_read(&bytes).unwrap();
    assert_eq!(used, bytes.len());
    assert_eq!(chunk.sprites.len(), 1);
    assert_eq!(chunk.sprites[0].cell_x, i32::MIN);
    assert_eq!(chunk.sprites[0].cell_y, i32::MIN);
}

#[test]
fn upper_bound_that_wraps_alone_leaves_no_cells() {
    let rect = Rect { corners: [0, 1, 0, 1], cells: vec![] };
    let bytes = write_chunk(
        &Header { min: (0, 0, 0), max: (0, 0, 0), origin: (i32::MAX, 0) },
        &[rect],
    );
    let (chunk, used) = MapChunk::try_read(&bytes).unwrap();
    assert_eq!(used, 34);
    assert!(chunk.sprites.is_empty());
}

#[test]
fn sprite_read_on_its_own() {
    let mut bytes = Vec::new();
    write_record(&mut bytes, &record(5, 0x02));
    let mut cursor = Cursor::new(&bytes);
    let sprite = MapSprite::read(&mut cursor, -3, 4).unwrap();
    assert_eq!(cursor.offset(), 19);
    assert_eq!(
        sprite,
        MapSprite {
            cell_x: -3,
            cell_y: 4,
            cell_z: -295,
            height: 15,
            altitude_order: 105,
            element_id: 250,
            group_key: -999_995,
            group_id: 0x0102_0309,
            layer: 35,
            color: LinearColor { red: 530, green: 690, blue: 850, alpha: 510 },
        }
    );
    assert!(matches!(MapSprite::read(&mut cursor, 0, 0), Err(DecodeError::Truncated)));
}

#[test]
fn sprite_truncated_in_its_tint() {
    let mut bytes = Vec::new();
    write_record(&mut bytes, &record(5, 0x1f));
    assert_eq!(bytes.len(), 30);
    for len in 0..30 {
        let mut cursor = Cursor::new(&bytes[..len]);
        assert!(matches!(MapSprite::read(&mut cursor, 0, 0), Err(DecodeError::Truncated)));
    }
}
