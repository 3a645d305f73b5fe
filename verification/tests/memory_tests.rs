use ferris8::Memory;

#[test]
fn new_memory_is_zeroed() {
    let m = Memory::new();
    assert_eq!(m.read_byte(0), 0);
    assert_eq!(m.read_byte(0x200), 0);
    assert_eq!(m.read_byte(4095), 0);
}

#[test]
fn fontset_is_loaded_and_intact() {
    let mut m = Memory::new();
    m.load_fontset();
    // Glyph 0: F0 90 90 90 F0
    assert_eq!(m.read_byte(0x50), 0xF0);
    assert_eq!(m.read_byte(0x51), 0x90);
    assert_eq!(m.read_byte(0x52), 0x90);
    assert_eq!(m.read_byte(0x53), 0x90);
    assert_eq!(m.read_byte(0x54), 0xF0);
    // Glyph F: F0 80 F0 80 80
    assert_eq!(m.read_byte(0x50 + 15 * 5), 0xF0);
    assert_eq!(m.read_byte(0x50 + 15 * 5 + 4), 0x80);
    assert!(m.validate_integrity());
}

#[test]
fn load_rom_rejects_empty_and_oversized() {
    let mut m = Memory::new();
    m.load_fontset();
    m.write_byte(0x300, 42);
    let empty: Vec<u8> = Vec::new();
    assert!(!m.load_rom(&empty));
    assert_eq!(m.read_byte(0x300), 42, "prior memory must be untouched");
    let oversized = vec![1u8; 3585];
    assert!(!m.load_rom(&oversized));
    assert_eq!(m.read_byte(0x300), 42, "prior memory must be untouched");
}

#[test]
fn load_rom_copies_and_zeroes_the_program_region() {
    let mut m = Memory::new();
    m.write_byte(0x400, 99);
    assert!(m.load_rom(&[0xAA, 0xBB, 0xCC]));
    assert_eq!(m.read_byte(0x200), 0xAA);
    assert_eq!(m.read_byte(0x201), 0xBB);
    assert_eq!(m.read_byte(0x202), 0xCC);
    assert_eq!(m.read_byte(0x203), 0);
    assert_eq!(m.read_byte(0x400), 0, "old program bytes are cleared");
    let max = vec![7u8; 3584];
    assert!(m.load_rom(&max));
    assert_eq!(m.read_byte(4095), 7);
}

#[test]
fn read_byte_out_of_range_reads_zero() {
    let m = Memory::new();
    assert_eq!(m.read_byte(4096), 0);
    assert_eq!(m.read_byte(0xFFFF), 0);
}

#[test]
fn write_byte_respects_bounds_and_protection() {
    let mut m = Memory::new();
    m.load_fontset();
    m.write_byte(4096, 1); // out of range: ignored
    m.write_byte(0x50, 0x00); // protected glyph table: ignored
    assert_eq!(m.read_byte(0x50), 0xF0);
    m.write_byte(0x9F, 0x00); // last protected byte: ignored
    assert_eq!(m.read_byte(0x9F), 0x80);
    m.write_byte(0xA0, 0x5A); // first unprotected byte above the table
    assert_eq!(m.read_byte(0xA0), 0x5A);
    m.write_byte(0x10, 0x77); // low system region is writable
    assert_eq!(m.read_byte(0x10), 0x77);
    assert!(m.validate_integrity());
}

#[test]
fn read_bytes_fails_closed() {
    let mut m = Memory::new();
    m.write_byte(0xFFE, 1);
    m.write_byte(0xFFF, 2);
    let ok = m.read_bytes(0xFFE, 2);
    assert_eq!(ok, vec![1, 2]);
    let over = m.read_bytes(0xFFF, 2);
    assert_eq!(over, vec![0, 0], "an overflowing read is all zeros");
}

#[test]
fn write_bytes_fails_closed() {
    let mut m = Memory::new();
    assert!(m.write_bytes(0xFFE, &[3, 4]));
    assert_eq!(m.read_byte(0xFFE), 3);
    assert_eq!(m.read_byte(0xFFF), 4);
    assert!(!m.write_bytes(0xFFF, &[5, 6]));
    assert_eq!(m.read_byte(0xFFF), 4, "a refused write changes nothing");
}

#[test]
fn font_address_clamps_out_of_range_digits() {
    let m = Memory::new();
    assert_eq!(m.get_font_address(0), 0x50);
    assert_eq!(m.get_font_address(1), 0x55);
    assert_eq!(m.get_font_address(0xF), 0x50 + 75);
    assert_eq!(m.get_font_address(16), 0x50);
    assert_eq!(m.get_font_address(255), 0x50);
}

#[test]
fn clear_zeroes_everything() {
    let mut m = Memory::new();
    m.load_fontset();
    m.write_byte(0x300, 9);
    m.clear();
    assert_eq!(m.read_byte(0x300), 0);
    assert_eq!(m.read_byte(0x50), 0, "clear also drops the glyphs");
    assert!(!m.validate_integrity());
    m.load_fontset();
    assert!(m.validate_integrity());
}

#[test]
fn count_non_zero_bytes_counts() {
    let mut m = Memory::new();
    m.write_byte(0x200, 1);
    m.write_byte(0x202, 2);
    assert_eq!(m.count_non_zero_bytes(0x200, 0x210), 2);
    assert_eq!(m.count_non_zero_bytes(0x200, 0x200), 0);
}

#[test]
fn diagnostics_render() {
    let mut m = Memory::new();
    m.load_fontset();
    assert!(!m.get_stats().is_empty());
    let dump = m.hex_dump(0x50, 16);
    assert!(dump.contains("F0"));
    assert!(m.get_address_info(0x50).contains("Fonts"));
    assert!(m.get_address_info(0x200).contains("Program"));
    assert!(m.get_address_info(0x10).contains("System"));
    assert!(m.get_address_info(0xFFFF).contains("OUT OF RANGE"));
}
