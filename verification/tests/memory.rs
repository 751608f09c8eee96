use chip8::ram::{Ram, RamError, PROGRAM_START_OFFSET, RAM_SIZE};

#[test]
fn read_byte() {
    let ram = Ram::new();
    assert_eq!(ram.read_byte(0usize).unwrap(), 0xF0);
}

#[test]
fn write_byte() {
    let mut ram = Ram::new();
    ram.write_byte(0usize, 1).unwrap();
    assert_eq!(ram.read_byte(0usize).unwrap(), 1);
}

#[test]
fn read_word() {
    let ram = Ram::new();
    assert_eq!(ram.read_word(0usize).unwrap(), 0xF090);
}

#[test]
fn write_word() {
    let mut ram = Ram::new();
    ram.write_word(0usize, 1024u16).unwrap();
    assert_eq!(ram.read_word(0usize).unwrap(), 1024u16);
}

#[test]
fn fresh_memory_holds_font_then_zeroes() {
    let ram = Ram::new();
    // First rows of the glyphs for 0 and 1, last byte of the glyph for F.
    assert_eq!(ram.read_byte(0).unwrap(), 0xF0);
    assert_eq!(ram.read_byte(5).unwrap(), 0x20);
    assert_eq!(ram.read_byte(79).unwrap(), 0x80);
    // Everything above the font region starts out zero.
    assert_eq!(ram.read_byte(80).unwrap(), 0);
    assert_eq!(ram.read_byte(PROGRAM_START_OFFSET).unwrap(), 0);
    assert_eq!(ram.read_byte(RAM_SIZE - 1).unwrap(), 0);
}

#[test]
fn byte_access_out_of_bound() {
    let mut ram = Ram::new();
    assert_eq!(ram.read_byte(RAM_SIZE), Err(RamError::OutOfBound));
    assert_eq!(ram.write_byte(RAM_SIZE, 7), Err(RamError::OutOfBound));
}

#[test]
fn word_access_needs_two_bytes_in_bound() {
    let mut ram = Ram::new();
    assert_eq!(ram.read_word(RAM_SIZE - 1), Err(RamError::OutOfBound));
    assert_eq!(ram.write_word(RAM_SIZE - 1, 7), Err(RamError::OutOfBound));
    assert!(ram.write_word(RAM_SIZE - 2, 0x0102).is_ok());
    assert_eq!(ram.read_word(RAM_SIZE - 2).unwrap(), 0x0102);
}

#[test]
fn word_is_stored_big_endian() {
    let mut ram = Ram::new();
    ram.write_word(0x300, 0xABCD).unwrap();
    assert_eq!(ram.read_byte(0x300).unwrap(), 0xAB);
    assert_eq!(ram.read_byte(0x301).unwrap(), 0xCD);
    assert_eq!(ram.read_word(0x300).unwrap(), 0xABCD);
}

#[test]
fn word_round_trip_at_several_addresses() {
    let mut ram = Ram::new();
    for (a, w) in [(0usize, 0xFFFFu16), (1, 0x0001), (0x200, 0x1234), (RAM_SIZE - 2, 0x8000)] {
        ram.write_word(a, w).unwrap();
        assert_eq!(ram.read_word(a).unwrap(), w);
    }
}

#[test]
fn load_fills_the_program_region_only() {
    let mut ram = Ram::new();
    ram.load(&[9, 8, 7]).unwrap();
    assert_eq!(ram.read_byte(PROGRAM_START_OFFSET).unwrap(), 9);
    assert_eq!(ram.read_byte(PROGRAM_START_OFFSET + 1).unwrap(), 8);
    assert_eq!(ram.read_byte(PROGRAM_START_OFFSET + 2).unwrap(), 7);
    // Bytes outside the image keep their values, the font included.
    assert_eq!(ram.read_byte(PROGRAM_START_OFFSET + 3).unwrap(), 0);
    assert_eq!(ram.read_byte(0).unwrap(), 0xF0);
}

#[test]
fn load_accepts_the_largest_image() {
    let mut ram = Ram::new();
    let image = vec![0xAA; RAM_SIZE - PROGRAM_START_OFFSET];
    assert!(ram.load(image.as_slice()).is_ok());
    assert_eq!(ram.read_byte(RAM_SIZE - 1).unwrap(), 0xAA);
}

#[test]
fn load_refuses_an_image_one_byte_too_large() {
    let mut ram = Ram::new();
    let image = vec![0xAA; RAM_SIZE - PROGRAM_START_OFFSET + 1];
    assert_eq!(ram.load(image.as_slice()), Err(RamError::NotEnoughSpace));
    // A refused image leaves memory untouched.
    assert_eq!(ram.read_byte(PROGRAM_START_OFFSET).unwrap(), 0);
}
