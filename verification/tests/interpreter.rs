use chip8::chip8::{Chip8, Chip8Error, Instruction};
use chip8::ram::RamError;

#[test]
fn decode_covers_the_table() {
    assert_eq!(Chip8::decode(0x00E0).unwrap(), Instruction::CLS);
    assert_eq!(Chip8::decode(0x00EE).unwrap(), Instruction::RET);
    assert_eq!(Chip8::decode(0x1234).unwrap(), Instruction::JMP);
    assert_eq!(Chip8::decode(0x2345).unwrap(), Instruction::CALL);
    assert_eq!(Chip8::decode(0x3012).unwrap(), Instruction::SE);
    assert_eq!(Chip8::decode(0x4012).unwrap(), Instruction::SNE);
    assert_eq!(Chip8::decode(0x5010).unwrap(), Instruction::SER);
    assert_eq!(Chip8::decode(0x60FF).unwrap(), Instruction::LD);
    assert_eq!(Chip8::decode(0x7001).unwrap(), Instruction::ADD);
    assert_eq!(Chip8::decode(0x8120).unwrap(), Instruction::LDR);
    assert_eq!(Chip8::decode(0x8121).unwrap(), Instruction::OR);
    assert_eq!(Chip8::decode(0x8122).unwrap(), Instruction::AND);
    assert_eq!(Chip8::decode(0x8123).unwrap(), Instruction::XOR);
    assert_eq!(Chip8::decode(0x8124).unwrap(), Instruction::ADDR);
    assert_eq!(Chip8::decode(0x8125).unwrap(), Instruction::SUB);
    assert_eq!(Chip8::decode(0x8126).unwrap(), Instruction::SHR);
    assert_eq!(Chip8::decode(0x8127).unwrap(), Instruction::SUBN);
    assert_eq!(Chip8::decode(0x812E).unwrap(), Instruction::SHL);
    assert_eq!(Chip8::decode(0x9010).unwrap(), Instruction::SNER);
    assert_eq!(Chip8::decode(0xA123).unwrap(), Instruction::LDRI);
    assert_eq!(Chip8::decode(0xB123).unwrap(), Instruction::JMPV0);
    assert_eq!(Chip8::decode(0xC0FF).unwrap(), Instruction::RND);
    assert_eq!(Chip8::decode(0xD125).unwrap(), Instruction::DRW);
    assert_eq!(Chip8::decode(0xE19E).unwrap(), Instruction::SKP);
    assert_eq!(Chip8::decode(0xE1A1).unwrap(), Instruction::SKNP);
    assert_eq!(Chip8::decode(0xF107).unwrap(), Instruction::LDRDT);
    assert_eq!(Chip8::decode(0xF10A).unwrap(), Instruction::LDK);
    assert_eq!(Chip8::decode(0xF115).unwrap(), Instruction::LDDTR);
    assert_eq!(Chip8::decode(0xF118).unwrap(), Instruction::LDRST);
    assert_eq!(Chip8::decode(0xF11E).unwrap(), Instruction::ADDRI);
    assert_eq!(Chip8::decode(0xF129).unwrap(), Instruction::LDSR);
    assert_eq!(Chip8::decode(0xF133).unwrap(), Instruction::LDB);
    assert_eq!(Chip8::decode(0xF155).unwrap(), Instruction::LDRIR);
    assert_eq!(Chip8::decode(0xF165).unwrap(), Instruction::LDRRI);
}

#[test]
fn decode_rejects_everything_outside_the_table() {
    assert_eq!(Chip8::decode(0x0000), Err(Chip8Error::FailedToDecodeOpcode));
    assert_eq!(Chip8::decode(0x0123), Err(Chip8Error::FailedToDecodeOpcode));
    assert_eq!(Chip8::decode(0x8128), Err(Chip8Error::FailedToDecodeOpcode));
    assert_eq!(Chip8::decode(0x812F), Err(Chip8Error::FailedToDecodeOpcode));
    assert_eq!(Chip8::decode(0xE19F), Err(Chip8Error::FailedToDecodeOpcode));
    assert_eq!(Chip8::decode(0xE100), Err(Chip8Error::FailedToDecodeOpcode));
    assert_eq!(Chip8::decode(0xF100), Err(Chip8Error::FailedToDecodeOpcode));
    assert_eq!(Chip8::decode(0xF1FF), Err(Chip8Error::FailedToDecodeOpcode));
}

#[test]
fn add_carry_sets_flag_exactly_when_sum_exceeds_a_byte() {
    let mut m = Chip8::new();
    m.registers.v[0] = 200;
    m.registers.v[1] = 100;
    assert_eq!(m.execute(&Instruction::ADDR, 0x8014).unwrap(), false);
    assert_eq!(m.registers.v[0], 44);
    assert_eq!(m.registers.v[15], 1);
    m.registers.v[2] = 5;
    m.registers.v[3] = 10;
    m.execute(&Instruction::ADDR, 0x8234).unwrap();
    assert_eq!(m.registers.v[2], 15);
    assert_eq!(m.registers.v[15], 0);
    // The exact boundary: 255 + 1 carries, 255 + 0 does not.
    m.registers.v[4] = 255;
    m.registers.v[5] = 1;
    m.execute(&Instruction::ADDR, 0x8454).unwrap();
    assert_eq!(m.registers.v[4], 0);
    assert_eq!(m.registers.v[15], 1);
    m.registers.v[6] = 255;
    m.registers.v[7] = 0;
    m.execute(&Instruction::ADDR, 0x8674).unwrap();
    assert_eq!(m.registers.v[6], 255);
    assert_eq!(m.registers.v[15], 0);
}

#[test]
fn immediate_add_wraps_without_flag() {
    let mut m = Chip8::new();
    m.registers.v[0] = 250;
    m.registers.v[15] = 9;
    m.execute(&Instruction::ADD, 0x700A).unwrap();
    assert_eq!(m.registers.v[0], 4);
    assert_eq!(m.registers.v[15], 9);
}

#[test]
fn shift_right_flag_is_the_bit_shifted_out() {
    let mut m = Chip8::new();
    m.registers.v[0] = 5;
    m.execute(&Instruction::SHR, 0x8006).unwrap();
    assert_eq!(m.registers.v[0], 2);
    assert_eq!(m.registers.v[15], 1);
    m.registers.v[1] = 4;
    m.execute(&Instruction::SHR, 0x8106).unwrap();
    assert_eq!(m.registers.v[1], 2);
    assert_eq!(m.registers.v[15], 0);
}

#[test]
fn shift_left_flag_is_the_bit_shifted_out() {
    let mut m = Chip8::new();
    m.registers.v[0] = 0x81;
    m.execute(&Instruction::SHL, 0x800E).unwrap();
    assert_eq!(m.registers.v[0], 0x02);
    assert_eq!(m.registers.v[15], 1);
    m.registers.v[1] = 0x40;
    m.execute(&Instruction::SHL, 0x810E).unwrap();
    assert_eq!(m.registers.v[1], 0x80);
    assert_eq!(m.registers.v[15], 0);
}

#[test]
fn subtract_flag_is_the_sign_bit_of_the_wrapped_difference() {
    let mut m = Chip8::new();
    m.registers.v[0] = 10;
    m.registers.v[1] = 20;
    m.execute(&Instruction::SUB, 0x8015).unwrap();
    assert_eq!(m.registers.v[0], 246);
    assert_eq!(m.registers.v[15], 1);
    m.registers.v[2] = 20;
    m.registers.v[3] = 10;
    m.execute(&Instruction::SUB, 0x8235).unwrap();
    assert_eq!(m.registers.v[2], 10);
    assert_eq!(m.registers.v[15], 0);
    // A large in-range difference still sets the flag: it reports the top
    // bit of the result, not a borrow.
    m.registers.v[4] = 200;
    m.registers.v[5] = 10;
    m.execute(&Instruction::SUB, 0x8455).unwrap();
    assert_eq!(m.registers.v[4], 190);
    assert_eq!(m.registers.v[15], 1);
}

#[test]
fn subtract_reversed_swaps_the_operands() {
    let mut m = Chip8::new();
    m.registers.v[0] = 20;
    m.registers.v[1] = 30;
    m.execute(&Instruction::SUBN, 0x8017).unwrap();
    assert_eq!(m.registers.v[0], 10);
    assert_eq!(m.registers.v[15], 0);
    m.registers.v[2] = 30;
    m.registers.v[3] = 20;
    m.execute(&Instruction::SUBN, 0x8237).unwrap();
    assert_eq!(m.registers.v[2], 246);
    assert_eq!(m.registers.v[15], 1);
}

#[test]
fn bitwise_ops_combine_into_the_first_register() {
    let mut m = Chip8::new();
    m.registers.v[0] = 0b1100;
    m.registers.v[1] = 0b1010;
    m.execute(&Instruction::OR, 0x8011).unwrap();
    assert_eq!(m.registers.v[0], 0b1110);
    m.registers.v[0] = 0b1100;
    m.execute(&Instruction::AND, 0x8012).unwrap();
    assert_eq!(m.registers.v[0], 0b1000);
    m.registers.v[0] = 0b1100;
    m.execute(&Instruction::XOR, 0x8013).unwrap();
    assert_eq!(m.registers.v[0], 0b0110);
}

#[test]
fn skips_advance_two_words_when_satisfied() {
    let mut m = Chip8::new();
    m.registers.v[0] = 0x12;
    m.execute(&Instruction::SE, 0x3012).unwrap();
    assert_eq!(m.registers.pc, 0x204);
    m.execute(&Instruction::SE, 0x3013).unwrap();
    assert_eq!(m.registers.pc, 0x206);
    m.execute(&Instruction::SNE, 0x4013).unwrap();
    assert_eq!(m.registers.pc, 0x20A);
    m.registers.v[1] = 0x12;
    m.execute(&Instruction::SER, 0x5010).unwrap();
    assert_eq!(m.registers.pc, 0x20E);
    m.execute(&Instruction::SNER, 0x9010).unwrap();
    assert_eq!(m.registers.pc, 0x210);
}

#[test]
fn jump_with_offset_adds_the_first_register() {
    let mut m = Chip8::new();
    m.registers.v[0] = 5;
    m.execute(&Instruction::JMPV0, 0xB100).unwrap();
    assert_eq!(m.registers.pc, 0x105);
}

#[test]
fn index_register_load_and_add() {
    let mut m = Chip8::new();
    m.execute(&Instruction::LDRI, 0xA123).unwrap();
    assert_eq!(m.registers.i, 0x123);
    m.registers.v[0] = 5;
    m.execute(&Instruction::ADDRI, 0xF01E).unwrap();
    assert_eq!(m.registers.i, 0x128);
}

#[test]
fn font_address_is_five_bytes_per_glyph() {
    let mut m = Chip8::new();
    m.registers.v[0] = 0xA;
    m.execute(&Instruction::LDSR, 0xF029).unwrap();
    assert_eq!(m.registers.i, 50);
    // The glyph for A starts with the row 0xF0.
    assert_eq!(m.ram.read_byte(50).unwrap(), 0xF0);
}

#[test]
fn bcd_stores_hundreds_then_remainders() {
    let mut m = Chip8::new();
    m.registers.v[0] = 234;
    m.registers.i = 0x400;
    m.execute(&Instruction::LDB, 0xF033).unwrap();
    assert_eq!(m.ram.read_byte(0x400).unwrap(), 2);
    // The second byte keeps the whole remainder below one hundred, the
    // third the remainder below ten.
    assert_eq!(m.ram.read_byte(0x401).unwrap(), 34);
    assert_eq!(m.ram.read_byte(0x402).unwrap(), 4);
}

#[test]
fn bcd_out_of_bound_is_fatal() {
    let mut m = Chip8::new();
    m.registers.i = 0x0FFE;
    assert_eq!(
        m.execute(&Instruction::LDB, 0xF033),
        Err(Chip8Error::Memory(RamError::OutOfBound))
    );
    assert_eq!(m.registers.pc, 0x200);
}

#[test]
fn store_registers_writes_block_and_moves_index() {
    let mut m = Chip8::new();
    m.registers.v[0] = 1;
    m.registers.v[1] = 2;
    m.registers.v[2] = 3;
    m.registers.v[3] = 4;
    m.registers.i = 0x300;
    m.execute(&Instruction::LDRIR, 0xF355).unwrap();
    assert_eq!(m.ram.read_byte(0x300).unwrap(), 1);
    assert_eq!(m.ram.read_byte(0x301).unwrap(), 2);
    assert_eq!(m.ram.read_byte(0x302).unwrap(), 3);
    assert_eq!(m.ram.read_byte(0x303).unwrap(), 4);
    assert_eq!(m.registers.i, 0x304);
    assert_eq!(m.registers.pc, 0x202);
}

#[test]
fn load_registers_reads_block_and_moves_index() {
    let mut m = Chip8::new();
    m.ram.write_byte(0x300, 11).unwrap();
    m.ram.write_byte(0x301, 22).unwrap();
    m.ram.write_byte(0x302, 33).unwrap();
    m.registers.v[3] = 99;
    m.registers.i = 0x300;
    m.execute(&Instruction::LDRRI, 0xF265).unwrap();
    assert_eq!(m.registers.v[0], 11);
    assert_eq!(m.registers.v[1], 22);
    assert_eq!(m.registers.v[2], 33);
    // Registers past the operand index keep their values.
    assert_eq!(m.registers.v[3], 99);
    assert_eq!(m.registers.i, 0x303);
}

#[test]
fn register_block_transfer_out_of_bound_is_fatal() {
    let mut m = Chip8::new();
    m.registers.i = 0x0FFE;
    assert_eq!(
        m.execute(&Instruction::LDRIR, 0xF355),
        Err(Chip8Error::Memory(RamError::OutOfBound))
    );
    assert_eq!(
        m.execute(&Instruction::LDRRI, 0xF365),
        Err(Chip8Error::Memory(RamError::OutOfBound))
    );
}

#[test]
fn random_value_is_masked_by_the_immediate() {
    let mut m = Chip8::new();
    m.registers.v[0] = 77;
    m.execute(&Instruction::RND, 0xC000).unwrap();
    assert_eq!(m.registers.v[0], 0);
    m.execute(&Instruction::RND, 0xC00F).unwrap();
    assert!(m.registers.v[0] <= 0x0F);
    assert_eq!(m.registers.pc, 0x204);
}

#[test]
fn draw_twice_clears_pixels_and_reports_collision() {
    let mut m = Chip8::new();
    m.ram.write_byte(0x300, 0b1010_0000).unwrap();
    m.registers.i = 0x300;
    m.registers.v[0] = 3;
    m.registers.v[1] = 5;
    assert_eq!(m.execute(&Instruction::DRW, 0xD011).unwrap(), true);
    assert_eq!(m.registers.v[15], 0);
    assert_eq!(m.frame.get_pixel(3, 5), 1);
    assert_eq!(m.frame.get_pixel(4, 5), 0);
    assert_eq!(m.frame.get_pixel(5, 5), 1);
    // The same sprite at the same position: every lit pixel goes dark
    // again and the collision flag reports it.
    m.execute(&Instruction::DRW, 0xD011).unwrap();
    assert_eq!(m.registers.v[15], 1);
    for y in 0..32 {
        for x in 0..64 {
            assert_eq!(m.frame.get_pixel(x, y), 0);
        }
    }
}

#[test]
fn draw_wraps_on_both_axes() {
    let mut m = Chip8::new();
    m.ram.write_byte(0x300, 0xFF).unwrap();
    m.ram.write_byte(0x301, 0xFF).unwrap();
    m.registers.i = 0x300;
    m.registers.v[0] = 62;
    m.registers.v[1] = 31;
    m.execute(&Instruction::DRW, 0xD012).unwrap();
    // The eight columns wrap past the right edge, the second row past the
    // bottom edge.
    assert_eq!(m.frame.get_pixel(62, 31), 1);
    assert_eq!(m.frame.get_pixel(63, 31), 1);
    assert_eq!(m.frame.get_pixel(0, 31), 1);
    assert_eq!(m.frame.get_pixel(5, 31), 1);
    assert_eq!(m.frame.get_pixel(62, 0), 1);
    assert_eq!(m.frame.get_pixel(5, 0), 1);
    assert_eq!(m.frame.get_pixel(6, 31), 0);
}

#[test]
fn draw_collision_only_on_overlap() {
    let mut m = Chip8::new();
    m.ram.write_byte(0x300, 0b1000_0000).unwrap();
    m.registers.i = 0x300;
    m.execute(&Instruction::DRW, 0xD011).unwrap();
    assert_eq!(m.registers.v[15], 0);
    m.ram.write_byte(0x300, 0b1100_0000).unwrap();
    m.execute(&Instruction::DRW, 0xD011).unwrap();
    // The overlapping pixel went out, the fresh one came on.
    assert_eq!(m.registers.v[15], 1);
    assert_eq!(m.frame.get_pixel(0, 0), 0);
    assert_eq!(m.frame.get_pixel(1, 0), 1);
}

#[test]
fn draw_past_end_of_memory_is_fatal() {
    let mut m = Chip8::new();
    m.registers.i = 0x0FFF;
    assert_eq!(
        m.execute(&Instruction::DRW, 0xD012),
        Err(Chip8Error::Memory(RamError::OutOfBound))
    );
}

#[test]
fn clear_then_jump_program_loops() {
    let mut m = Chip8::new();
    m.load_rom(&[0x00, 0xE0, 0x12, 0x00]).unwrap();
    assert_eq!(m.registers.pc, 0x200);
    // Clear advances the program counter one word and asks for a redraw.
    assert_eq!(m.cycle().unwrap(), true);
    assert_eq!(m.registers.pc, 0x202);
    // The jump sets the program counter absolutely, with no extra step.
    assert_eq!(m.cycle().unwrap(), false);
    assert_eq!(m.registers.pc, 0x200);
    assert_eq!(m.cycle().unwrap(), true);
    assert_eq!(m.registers.pc, 0x202);
    assert_eq!(m.cycle().unwrap(), false);
    assert_eq!(m.registers.pc, 0x200);
}

#[test]
fn call_pushes_return_address_and_return_pops_it() {
    let mut m = Chip8::new();
    m.load_rom(&[0x23, 0x00]).unwrap();
    m.ram.write_word(0x300, 0x00EE).unwrap();
    assert_eq!(m.cycle().unwrap(), false);
    assert_eq!(m.registers.pc, 0x300);
    assert_eq!(m.registers.sp.len(), 1);
    assert_eq!(m.cycle().unwrap(), false);
    assert_eq!(m.registers.pc, 0x202);
    assert!(m.registers.sp.is_empty());
}

#[test]
fn return_with_empty_stack_is_a_fatal_error() {
    let mut m = Chip8::new();
    assert_eq!(
        m.execute(&Instruction::RET, 0x00EE),
        Err(Chip8Error::EmptyCallStack)
    );
    // The same through a whole cycle on a loaded program.
    let mut m2 = Chip8::new();
    m2.load_rom(&[0x00, 0xEE]).unwrap();
    assert_eq!(m2.cycle(), Err(Chip8Error::EmptyCallStack));
    assert_eq!(m2.registers.pc, 0x200);
}

#[test]
fn undecodable_opcode_aborts_the_cycle() {
    let mut m = Chip8::new();
    m.load_rom(&[0xFF, 0xFF]).unwrap();
    assert_eq!(m.cycle(), Err(Chip8Error::FailedToDecodeOpcode));
    assert_eq!(m.registers.pc, 0x200);
}

#[test]
fn fetch_past_end_of_memory_is_fatal() {
    let mut m = Chip8::new();
    m.registers.pc = 0x0FFF;
    assert_eq!(m.cycle(), Err(Chip8Error::Memory(RamError::OutOfBound)));
}

#[test]
fn key_skip_consumes_the_matching_key() {
    let mut m = Chip8::new();
    m.keyboard.press_key(5);
    m.registers.v[0] = 5;
    m.execute(&Instruction::SKP, 0xE09E).unwrap();
    assert_eq!(m.registers.pc, 0x204);
    assert_eq!(m.keyboard.get_pressed_key(), None);
    // With no key held the skip does not fire.
    m.execute(&Instruction::SKP, 0xE09E).unwrap();
    assert_eq!(m.registers.pc, 0x206);
}

#[test]
fn key_skip_not_pressed_branch() {
    let mut m = Chip8::new();
    m.keyboard.press_key(5);
    m.registers.v[0] = 7;
    m.execute(&Instruction::SKNP, 0xE0A1).unwrap();
    assert_eq!(m.registers.pc, 0x204);
    assert_eq!(m.keyboard.get_pressed_key(), Some(5));
    // When the key does match, no skip, and the key is consumed.
    m.registers.v[0] = 5;
    m.execute(&Instruction::SKNP, 0xE0A1).unwrap();
    assert_eq!(m.registers.pc, 0x206);
    assert_eq!(m.keyboard.get_pressed_key(), None);
}

#[test]
fn load_key_leaves_register_when_no_key_held() {
    let mut m = Chip8::new();
    m.registers.v[0] = 42;
    m.execute(&Instruction::LDK, 0xF00A).unwrap();
    assert_eq!(m.registers.v[0], 42);
    m.keyboard.press_key(7);
    m.execute(&Instruction::LDK, 0xF00A).unwrap();
    assert_eq!(m.registers.v[0], 7);
    // Reading the key does not consume it.
    assert_eq!(m.keyboard.get_pressed_key(), Some(7));
}

#[test]
fn delay_timer_set_and_read_back() {
    let mut m = Chip8::new();
    m.registers.v[0] = 60;
    m.execute(&Instruction::LDDTR, 0xF015).unwrap();
    assert_eq!(m.registers.dt, 60);
    m.execute(&Instruction::LDRDT, 0xF107).unwrap();
    assert!(m.registers.v[1] <= 60);
    assert_eq!(m.registers.pc, 0x204);
}

#[test]
fn sound_timer_instruction_only_advances() {
    let mut m = Chip8::new();
    m.registers.v[0] = 9;
    m.execute(&Instruction::LDRST, 0xF018).unwrap();
    assert_eq!(m.registers.pc, 0x202);
    assert_eq!(m.registers.st, 60);
}

#[test]
fn register_copy_and_load_immediate() {
    let mut m = Chip8::new();
    m.execute(&Instruction::LD, 0x60AB).unwrap();
    assert_eq!(m.registers.v[0], 0xAB);
    m.execute(&Instruction::LDR, 0x8100).unwrap();
    assert_eq!(m.registers.v[1], 0xAB);
    assert_eq!(m.registers.pc, 0x204);
}

#[test]
fn fresh_machine_state() {
    let m = Chip8::new();
    assert_eq!(m.registers.pc, 0x200);
    assert_eq!(m.registers.i, 0);
    assert_eq!(m.registers.v.len(), 16);
    assert!(m.registers.v.iter().all(|&b| b == 0));
    assert!(m.registers.sp.is_empty());
    assert_eq!(m.keyboard.get_pressed_key(), None);
    assert_eq!(m.frame.get_pixel(0, 0), 0);
    assert_eq!(m.ram.read_byte(0).unwrap(), 0xF0);
}

#[test]
fn rom_too_large_is_refused() {
    let mut m = Chip8::new();
    let image = vec![0u8; 4096 - 0x200 + 1];
    assert_eq!(
        m.load_rom(image.as_slice()),
        Err(RamError::NotEnoughSpace)
    );
}
