use map_chunk::map::color::{size_from_tag, teint, Colors, LinearColor, CHANNEL_ONE};
use map_chunk::map::cursor::{Cursor, DecodeError};

/// Sizes for the tags 0..32; the three high bits of a tag do not count, so
/// the row repeats eight times over the 256 tags.
const SIZES: [usize; 32] = [
    0, 3, 3, 6, 3, 6, 6, 9, 1, 4, 4, 7, 4, 7, 7, 10, 0, 3, 6, 9, 3, 6, 9, 12, 2, 5, 8, 11, 5, 8, 11,
    14,
];

fn white() -> LinearColor {
    LinearColor { red: 510, green: 510, blue: 510, alpha: 510 }
}

fn resolve(tag: u8, record: &[u8]) -> LinearColor {
    let mut cursor = Cursor::new(record);
    let colors = Colors::try_read(&mut cursor, tag).unwrap();
    assert_eq!(cursor.offset(), size_from_tag(tag));
    colors.get(0)
}

#[test]
fn size_from_tag_matches_table_for_every_tag() {
    for tag in 0..=255u8 {
        assert_eq!(size_from_tag(tag), SIZES[(tag & 0x1f) as usize], "tag {}", tag);
    }
}

#[test]
fn size_from_tag_single_bits() {
    assert_eq!(size_from_tag(0x00), 0);
    assert_eq!(size_from_tag(0x01), 3);
    assert_eq!(size_from_tag(0x02), 3);
    assert_eq!(size_from_tag(0x04), 3);
    assert_eq!(size_from_tag(0x08), 1);
    assert_eq!(size_from_tag(0x10), 0);
    assert_eq!(size_from_tag(0x20), 0);
    assert_eq!(size_from_tag(0x40), 0);
    assert_eq!(size_from_tag(0x80), 0);
}

#[test]
fn doubling_applies_to_the_running_sum() {
    assert_eq!(size_from_tag(0x02 | 0x10), 6);
    assert_ne!(size_from_tag(0x02 | 0x10), 3);
    assert_eq!(size_from_tag(0x08 | 0x10), 2);
    assert_eq!(size_from_tag(0x02 | 0x08 | 0x10), 8);
}

#[test]
fn doubling_leaves_later_bits_alone() {
    assert_eq!(size_from_tag(0x01 | 0x10), 3);
    assert_eq!(size_from_tag(0x04 | 0x10), 3);
    assert_eq!(size_from_tag(0x01 | 0x04 | 0x10), 6);
    assert_eq!(size_from_tag(0x02 | 0x01 | 0x10), 9);
    assert_eq!(size_from_tag(0x1f), 14);
    assert_eq!(size_from_tag(0xff), 14);
}

#[test]
fn teint_exact_values() {
    assert_eq!(teint(0), 255);
    assert_eq!(teint(-1), 253);
    assert_eq!(teint(1), 257);
    assert_eq!(teint(127), 509);
    assert_eq!(teint(-128), -1);
    assert_eq!(CHANNEL_ONE, 510);
}

#[test]
fn four_bytes_resolve_to_scaled_rgb_and_plain_alpha() {
    // 0x02 | 0x08 selects exactly four bytes.
    let color = resolve(0x0a, &[0, 0, 0, 255]);
    assert_eq!(color, LinearColor { red: 510, green: 510, blue: 510, alpha: 253 });

    let red = color.red as f64 / CHANNEL_ONE as f64;
    let alpha = color.alpha as f64 / CHANNEL_ONE as f64;
    assert_eq!(red, 1.0);
    assert!((alpha - (-1.0 / 255.0 + 0.5)).abs() < 1e-12);
    assert!((alpha - 0.4961).abs() < 1e-4);
}

#[test]
fn four_bytes_signed_channels() {
    let color = resolve(0x0a, &[127, 128, 1, 0]);
    assert_eq!(color.red, 2 * (2 * 127 + 255));
    assert_eq!(color.green, 2 * (2 * -128 + 255));
    assert_eq!(color.blue, 2 * (2 * 1 + 255));
    assert_eq!(color.alpha, 255);
    assert_eq!(color, LinearColor { red: 1018, green: -2, blue: 514, alpha: 255 });
}

#[test]
fn four_bytes_from_the_other_tag_of_that_length() {
    // 0x08 | 0x01 also selects four bytes: one before, three after.
    assert_eq!(size_from_tag(0x09), 4);
    let color = resolve(0x09, &[10, 20, 30, 40]);
    assert_eq!(color, LinearColor { red: 550, green: 590, blue: 630, alpha: 335 });
}

#[test]
fn three_bytes_are_opaque() {
    for tag in [0x01u8, 0x02, 0x04] {
        let color = resolve(tag, &[0, 255, 64]);
        assert_eq!(color, LinearColor { red: 510, green: 506, blue: 766, alpha: 510 });
    }
}

#[test]
fn other_lengths_resolve_to_opaque_white() {
    assert_eq!(resolve(0x00, &[]), white());
    assert_eq!(resolve(0x08, &[7]), white());
    assert_eq!(resolve(0x18, &[7, 9]), white());
    assert_eq!(resolve(0x03, &[1, 2, 3, 4, 5, 6]), white());
    assert_eq!(resolve(0x1a, &[1, 2, 3, 4, 5, 6, 7, 8]), white());
    assert_eq!(resolve(0x1f, &[9; 14]), white());
}

#[test]
fn every_tag_resolves_by_length_alone() {
    let record = [200u8, 100, 50, 25, 1, 2, 3, 4, 5, 6, 7, 8, 9, 10];
    for tag in 0..=255u8 {
        let size = size_from_tag(tag);
        let color = resolve(tag, &record);
        let expected = match size {
            4 => LinearColor { red: 286, green: 910, blue: 710, alpha: 305 },
            3 => LinearColor { red: 286, green: 910, blue: 710, alpha: 510 },
            _ => white(),
        };
        assert_eq!(color, expected, "tag {}", tag);
    }
}

#[test]
fn table_has_one_entry() {
    let record = [0u8, 0, 0];
    let mut cursor = Cursor::new(&record);
    let colors = Colors::try_read(&mut cursor, 0x02).unwrap();
    assert_eq!(colors.get(0), LinearColor { red: 510, green: 510, blue: 510, alpha: 510 });
    let record = [127u8, 127, 127];
    let mut cursor = Cursor::new(&record);
    let colors = Colors::try_read(&mut cursor, 0x02).unwrap();
    assert_eq!(colors.get(0).red, 1018);
    assert_eq!(colors.get(1), white());
    assert_eq!(colors.get(u16::MAX), white());
}

#[test]
fn color_table_truncated() {
    let record = [1u8, 2];
    let mut cursor = Cursor::new(&record);
    assert!(matches!(Colors::try_read(&mut cursor, 0x02), Err(DecodeError::Truncated)));
    assert_eq!(cursor.offset(), 0);
}

#[test]
fn empty_color_table_reads_at_the_end_of_the_buffer() {
    let record: [u8; 0] = [];
    let mut cursor = Cursor::new(&record);
    let colors = Colors::try_read(&mut cursor, 0x10).unwrap();
    assert_eq!(cursor.offset(), 0);
    assert_eq!(colors.get(0), white());
}
