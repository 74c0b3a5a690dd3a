use chip8::font::{font_table, glyph};

#[test]
fn the_font_has_five_rows_for_each_digit() {
    let table = font_table();
    assert_eq!(80, table.len());
    assert_eq!(&[0xF0, 0x90, 0x90, 0x90, 0xF0], &table[0..5]);
    assert_eq!(&[0x20, 0x60, 0x20, 0x20, 0x70], &table[5..10]);
    assert_eq!(&[0xF0, 0x10, 0x20, 0x40, 0x40], &table[35..40]);
    assert_eq!(&[0xF0, 0x80, 0xF0, 0x80, 0x80], &table[75..80]);
    // Every glyph is four pixels wide: the low four bits are clear.
    for row in &table {
        assert_eq!(0, row & 0x0F);
    }
}

#[test]
fn glyphs_follow_each_other_from_0x50() {
    assert_eq!(0x50, glyph(0));
    assert_eq!(0x55, glyph(1));
    assert_eq!(0x9B, glyph(0xF));
    for digit in 0..=255u8 {
        assert_eq!(0x50 + 5 * (digit % 16) as u16, glyph(digit));
    }
}
