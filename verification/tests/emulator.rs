use chip8::emulator::decode::Op;
use chip8::emulator::error::Error;
use chip8::emulator::{Emulator, FONT, MEM_SIZE, PRGRM_START, STACK_SIZE};
use chip8::utils::OFstate;

fn with_registers(values: &[(u8, u8)]) -> Emulator {
    let mut e = Emulator::new();
    for &(x, nn) in values {
        e.execute_with(Op::SetVx { x, nn }, 0).unwrap();
    }
    e
}

fn with_program(rom: &[u8]) -> Emulator {
    let mut e = Emulator::new();
    e.load_rom(rom).unwrap();
    e
}

fn lit_pixels(e: &Emulator) -> Vec<(usize, usize)> {
    let mut lit = Vec::new();
    for r in 0..32 {
        for c in 0..64 {
            if e.peripherals().vram[r][c] == OFstate::ON {
                lit.push((r, c));
            }
        }
    }
    lit
}

#[test]
fn new_machine_holds_font_and_zeros() {
    let e = Emulator::new();
    assert_eq!(e.program_counter(), PRGRM_START);
    assert_eq!(e.program_counter(), 0x200);
    assert_eq!(e.register_i(), 0);
    assert_eq!(*e.register_v(), [0u8; 16]);
    assert_eq!(e.delay_timer(), 0);
    assert_eq!(e.sound_timer(), 0);
    assert_eq!(e.stack_pointer(), 0);
    assert_eq!(e.return_address(0), None);
    for a in 0..MEM_SIZE {
        let want = if (0x50..0xA0).contains(&a) { FONT[a - 0x50] } else { 0 };
        assert_eq!(e.memory()[a], want);
    }
    assert!(lit_pixels(&e).is_empty());
    assert_eq!(e.peripherals().key_list, [false; 16]);
    assert!(e.peripherals().text.is_empty());
}

#[test]
fn add_sets_carry_and_wraps_for_all_pairs() {
    for a in 0..=255u8 {
        for b in 0..=255u8 {
            let mut e = with_registers(&[(1, a), (2, b)]);
            e.execute(Op::AddVxVy { x: 1, y: 2 }).unwrap();
            let sum = a as u16 + b as u16;
            assert_eq!(e.register_v()[1], (sum % 256) as u8);
            assert_eq!(e.register_v()[15], if sum > 255 { 1 } else { 0 });
            assert_eq!(e.register_v()[2], b);
        }
    }
}

#[test]
fn add_exact_values() {
    let mut e = with_registers(&[(1, 200), (2, 100)]);
    e.execute(Op::AddVxVy { x: 1, y: 2 }).unwrap();
    assert_eq!(e.register_v()[1], 44);
    assert_eq!(e.register_v()[15], 1);
    let mut e = with_registers(&[(1, 255), (2, 0)]);
    e.execute(Op::AddVxVy { x: 1, y: 2 }).unwrap();
    assert_eq!(e.register_v()[1], 255);
    assert_eq!(e.register_v()[15], 0);
}

#[test]
fn add_into_flag_register_keeps_the_carry() {
    let mut e = with_registers(&[(15, 200), (2, 100)]);
    e.execute(Op::AddVxVy { x: 15, y: 2 }).unwrap();
    assert_eq!(e.register_v()[15], 1);
}

#[test]
fn subtract_sets_no_borrow_and_wraps_for_all_pairs() {
    for a in 0..=255u8 {
        for b in 0..=255u8 {
            let mut e = with_registers(&[(1, a), (2, b)]);
            e.execute(Op::VxMinusVy { x: 1, y: 2 }).unwrap();
            assert_eq!(e.register_v()[1], a.wrapping_sub(b));
            assert_eq!(e.register_v()[15], if a >= b { 1 } else { 0 });
        }
    }
}

#[test]
fn subtract_exact_values() {
    let mut e = with_registers(&[(1, 5), (2, 7)]);
    e.execute(Op::VxMinusVy { x: 1, y: 2 }).unwrap();
    assert_eq!(e.register_v()[1], 254);
    assert_eq!(e.register_v()[15], 0);
    let mut e = with_registers(&[(1, 7), (2, 7)]);
    e.execute(Op::VxMinusVy { x: 1, y: 2 }).unwrap();
    assert_eq!(e.register_v()[1], 0);
    assert_eq!(e.register_v()[15], 1);
}

#[test]
fn subtract_same_register_uses_value_before_the_write() {
    let mut e = with_registers(&[(1, 9)]);
    e.execute(Op::VxMinusVy { x: 1, y: 1 }).unwrap();
    assert_eq!(e.register_v()[1], 0);
    assert_eq!(e.register_v()[15], 1);
}

#[test]
fn reverse_subtract_sets_no_borrow_and_wraps() {
    let mut e = with_registers(&[(1, 5), (2, 7)]);
    e.execute(Op::VyMinusVx { x: 1, y: 2 }).unwrap();
    assert_eq!(e.register_v()[1], 2);
    assert_eq!(e.register_v()[15], 1);
    let mut e = with_registers(&[(1, 7), (2, 5)]);
    e.execute(Op::VyMinusVx { x: 1, y: 2 }).unwrap();
    assert_eq!(e.register_v()[1], 254);
    assert_eq!(e.register_v()[15], 0);
}

#[test]
fn bitwise_operations_leave_the_flag_alone() {
    let mut e = with_registers(&[(1, 0b1100), (2, 0b1010), (15, 7)]);
    e.execute(Op::BinaryOr { x: 1, y: 2 }).unwrap();
    assert_eq!(e.register_v()[1], 0b1110);
    let mut e = with_registers(&[(1, 0b1100), (2, 0b1010), (15, 7)]);
    e.execute(Op::BinaryAnd { x: 1, y: 2 }).unwrap();
    assert_eq!(e.register_v()[1], 0b1000);
    let mut e = with_registers(&[(1, 0b1100), (2, 0b1010), (15, 7)]);
    e.execute(Op::LogicalXor { x: 1, y: 2 }).unwrap();
    assert_eq!(e.register_v()[1], 0b0110);
    assert_eq!(e.register_v()[15], 7);
}

#[test]
fn shift_left_moves_towards_high_bit_and_keeps_outgoing_bit() {
    let mut e = with_registers(&[(1, 0b1000_0001)]);
    e.execute(Op::ShiftLeft { x: 1 }).unwrap();
    assert_eq!(e.register_v()[1], 0b0000_0010);
    assert_eq!(e.register_v()[15], 1);
    let mut e = with_registers(&[(1, 0b0100_0001)]);
    e.execute(Op::ShiftLeft { x: 1 }).unwrap();
    assert_eq!(e.register_v()[1], 0b1000_0010);
    assert_eq!(e.register_v()[15], 0);
}

#[test]
fn shift_right_moves_towards_low_bit_and_keeps_outgoing_bit() {
    let mut e = with_registers(&[(1, 0b1000_0001)]);
    e.execute(Op::ShiftRight { x: 1 }).unwrap();
    assert_eq!(e.register_v()[1], 0b0100_0000);
    assert_eq!(e.register_v()[15], 1);
    let mut e = with_registers(&[(1, 0b1000_0010)]);
    e.execute(Op::ShiftRight { x: 1 }).unwrap();
    assert_eq!(e.register_v()[1], 0b0100_0001);
    assert_eq!(e.register_v()[15], 0);
}

#[test]
fn set_copy_and_add_immediate() {
    let mut e = with_registers(&[(1, 250), (15, 9)]);
    e.execute(Op::AddVx { x: 1, nn: 10 }).unwrap();
    assert_eq!(e.register_v()[1], 4);
    assert_eq!(e.register_v()[15], 9);
    e.execute(Op::SetVxVy { x: 3, y: 1 }).unwrap();
    assert_eq!(e.register_v()[3], 4);
}

#[test]
fn bcd_store_of_255() {
    let mut e = with_registers(&[(4, 255)]);
    e.execute(Op::SetIndex { addr: 0x300 }).unwrap();
    e.execute(Op::BcdConvert { x: 4 }).unwrap();
    assert_eq!(&e.memory()[0x300..0x303], &[2, 5, 5]);
    assert_eq!(e.memory()[0x2FF], 0);
    assert_eq!(e.memory()[0x303], 0);
    assert_eq!(e.register_i(), 0x300);
}

#[test]
fn bcd_store_of_other_values() {
    for (value, digits) in [(0u8, [0u8, 0, 0]), (7, [0, 0, 7]), (42, [0, 4, 2]), (109, [1, 0, 9])] {
        let mut e = with_registers(&[(4, value)]);
        e.execute(Op::SetIndex { addr: 0x300 }).unwrap();
        e.execute(Op::BcdConvert { x: 4 }).unwrap();
        assert_eq!(&e.memory()[0x300..0x303], &digits);
    }
}

#[test]
fn bcd_store_past_memory_is_out_of_bounds() {
    let mut e = with_registers(&[(4, 255)]);
    e.execute(Op::SetIndex { addr: 0xFFE }).unwrap();
    assert_eq!(e.execute(Op::BcdConvert { x: 4 }), Err(Error::OutOfBounds));
    assert_eq!(e.memory()[0xFFE], 0);
    assert_eq!(e.memory()[0xFFF], 0);
    e.execute(Op::SetIndex { addr: 0xFFD }).unwrap();
    assert_eq!(e.execute(Op::BcdConvert { x: 4 }), Ok(()));
    assert_eq!(&e.memory()[0xFFD..0x1000], &[2, 5, 5]);
}

#[test]
fn font_glyph_lookup_for_digit_a() {
    let mut e = with_registers(&[(2, 0xA)]);
    e.execute(Op::FontChar { x: 2 }).unwrap();
    assert_eq!(e.register_i(), 0x50 + 0xA * 5);
    assert_eq!(e.register_i(), 0x82);
    let i = e.register_i() as usize;
    assert_eq!(&e.memory()[i..i + 5], &[0xF0, 0x90, 0xF0, 0x90, 0x90]);
}

#[test]
fn block_store_copies_registers_zero_to_x_inclusive() {
    let mut e = with_registers(&[(0, 10), (1, 11), (2, 12), (3, 13), (4, 14)]);
    e.execute(Op::SetIndex { addr: 0x400 }).unwrap();
    e.execute(Op::StoreMem { x: 3 }).unwrap();
    assert_eq!(&e.memory()[0x400..0x405], &[10, 11, 12, 13, 0]);
    assert_eq!(e.memory()[0x3FF], 0);
    assert_eq!(e.register_i(), 0x400);
}

#[test]
fn block_load_copies_registers_zero_to_x_inclusive() {
    let mut e = with_program(&[]);
    let mut rom = vec![0u8; 0x200];
    rom.extend_from_slice(&[21, 22, 23, 24, 25]);
    e.load_rom(&rom).unwrap();
    e.execute(Op::SetVx { x: 4, nn: 99 }).unwrap();
    e.execute(Op::SetIndex { addr: 0x400 }).unwrap();
    e.execute(Op::LoadMem { x: 3 }).unwrap();
    assert_eq!(&e.register_v()[0..5], &[21, 22, 23, 24, 99]);
}

#[test]
fn block_store_and_load_past_memory_are_out_of_bounds() {
    let mut e = with_registers(&[(0, 1), (1, 2)]);
    e.execute(Op::SetIndex { addr: 0xFFF }).unwrap();
    assert_eq!(e.execute(Op::StoreMem { x: 1 }), Err(Error::OutOfBounds));
    assert_eq!(e.memory()[0xFFF], 0);
    assert_eq!(e.execute(Op::LoadMem { x: 1 }), Err(Error::OutOfBounds));
    assert_eq!(e.execute(Op::StoreMem { x: 0 }), Ok(()));
    assert_eq!(e.memory()[0xFFF], 1);
}

#[test]
fn add_to_index_sets_flag_past_address_range() {
    let mut e = with_registers(&[(1, 0x10), (15, 0)]);
    e.execute(Op::SetIndex { addr: 0xFF0 }).unwrap();
    e.execute(Op::AddToIndex { x: 1 }).unwrap();
    assert_eq!(e.register_i(), 0x1000);
    assert_eq!(e.register_v()[15], 1);
    let mut e = with_registers(&[(1, 0x0F), (15, 5)]);
    e.execute(Op::SetIndex { addr: 0xFF0 }).unwrap();
    e.execute(Op::AddToIndex { x: 1 }).unwrap();
    assert_eq!(e.register_i(), 0xFFF);
    assert_eq!(e.register_v()[15], 5);
}

#[test]
fn timers_are_set_and_read() {
    let mut e = with_registers(&[(1, 30), (2, 40)]);
    e.execute(Op::SetDelayTimer { x: 1 }).unwrap();
    e.execute(Op::SetSoundTimer { x: 2 }).unwrap();
    assert_eq!(e.delay_timer(), 30);
    assert_eq!(e.sound_timer(), 40);
    e.execute(Op::SetVxToDelay { x: 5 }).unwrap();
    assert_eq!(e.register_v()[5], 30);
}

#[test]
fn timers_go_down_every_twelfth_cycle_and_stop_at_zero() {
    // 6102 F115 then a jump to itself at 0x204.
    let mut e = with_program(&[0x61, 0x02, 0xF1, 0x15, 0x12, 0x04]);
    e.cycle().unwrap();
    e.cycle().unwrap();
    assert_eq!(e.delay_timer(), 2);
    for _ in 0..9 {
        e.cycle().unwrap();
    }
    assert_eq!(e.delay_timer(), 2);
    e.cycle().unwrap();
    assert_eq!(e.delay_timer(), 1);
    for _ in 0..12 {
        e.cycle().unwrap();
    }
    assert_eq!(e.delay_timer(), 0);
    for _ in 0..24 {
        e.cycle().unwrap();
    }
    assert_eq!(e.delay_timer(), 0);
    assert_eq!(e.sound_timer(), 0);
}

#[test]
fn random_is_masked_with_the_immediate() {
    let mut e = Emulator::new();
    e.execute_with(Op::Random { x: 1, nn: 0x0F }, 0xAB).unwrap();
    assert_eq!(e.register_v()[1], 0x0B);
    for _ in 0..200 {
        e.execute(Op::Random { x: 2, nn: 0x3C }).unwrap();
        assert_eq!(e.register_v()[2] & !0x3C, 0);
    }
    e.execute(Op::Random { x: 3, nn: 0 }).unwrap();
    assert_eq!(e.register_v()[3], 0);
}

#[test]
fn random_byte_is_ignored_by_other_instructions() {
    let mut a = Emulator::new();
    let mut b = Emulator::new();
    a.execute_with(Op::SetVx { x: 1, nn: 7 }, 0).unwrap();
    b.execute_with(Op::SetVx { x: 1, nn: 7 }, 255).unwrap();
    assert_eq!(a.register_v(), b.register_v());
}

#[test]
fn jump_to_0x2f0_fetches_there() {
    // 12F0 at 0x200; 6A42 at 0x2F0; 6B07 at 0x2F2.
    let mut rom = vec![0u8; 0xF4];
    rom[0] = 0x12;
    rom[1] = 0xF0;
    rom[0xF0] = 0x6A;
    rom[0xF1] = 0x42;
    rom[0xF2] = 0x6B;
    rom[0xF3] = 0x07;
    let mut e = with_program(&rom);
    e.cycle().unwrap();
    assert_eq!(e.program_counter(), 0x2F0);
    assert_eq!(e.next_op(), Ok(Op::SetVx { x: 0xA, nn: 0x42 }));
    e.cycle().unwrap();
    assert_eq!(e.register_v()[0xA], 0x42);
    assert_eq!(e.register_v()[0xB], 0);
    assert_eq!(e.program_counter(), 0x2F2);
}

#[test]
fn offset_jump_adds_register_zero() {
    let mut e = with_registers(&[(0, 0x10)]);
    e.execute(Op::OffsetJump { addr: 0x300 }).unwrap();
    assert_eq!(e.program_counter(), 0x310);
}

#[test]
fn call_then_return_restores_pc_after_the_call() {
    // 2300 at 0x200; 00EE at 0x300.
    let mut rom = vec![0u8; 0x102];
    rom[0] = 0x23;
    rom[1] = 0x00;
    rom[0x100] = 0x00;
    rom[0x101] = 0xEE;
    let mut e = with_program(&rom);
    e.cycle().unwrap();
    assert_eq!(e.program_counter(), 0x300);
    assert_eq!(e.stack_pointer(), 1);
    assert_eq!(e.return_address(0), Some(0x202));
    e.cycle().unwrap();
    assert_eq!(e.program_counter(), 0x202);
    assert_eq!(e.stack_pointer(), 0);
    assert_eq!(e.return_address(0), None);
}

#[test]
fn seventeenth_call_overflows_the_stack() {
    let mut e = Emulator::new();
    for depth in 0..STACK_SIZE {
        assert_eq!(e.stack_pointer(), depth);
        e.execute(Op::Call { addr: 0x300 }).unwrap();
    }
    assert_eq!(e.stack_pointer(), 16);
    e.execute(Op::Jump { addr: 0x246 }).unwrap();
    assert_eq!(e.execute(Op::Call { addr: 0x400 }), Err(Error::StackOverflow));
    assert_eq!(e.stack_pointer(), 16);
    assert_eq!(e.program_counter(), 0x246);
}

#[test]
fn return_on_empty_stack_underflows() {
    let mut e = Emulator::new();
    assert_eq!(e.execute(Op::Return), Err(Error::StackUnderflow));
    assert_eq!(e.program_counter(), 0x200);
    assert_eq!(e.stack_pointer(), 0);
}

#[test]
fn returns_come_back_newest_first() {
    let mut e = Emulator::new();
    e.execute(Op::Call { addr: 0x300 }).unwrap();
    e.execute(Op::Call { addr: 0x400 }).unwrap();
    assert_eq!(e.return_address(0), Some(0x200));
    assert_eq!(e.return_address(1), Some(0x300));
    e.execute(Op::Return).unwrap();
    assert_eq!(e.program_counter(), 0x300);
    e.execute(Op::Return).unwrap();
    assert_eq!(e.program_counter(), 0x200);
}

#[test]
fn skips_advance_by_one_instruction() {
    let mut e = with_registers(&[(1, 5), (2, 5), (3, 6)]);
    e.execute(Op::SkipIfEqual { x: 1, nn: 5 }).unwrap();
    assert_eq!(e.program_counter(), 0x202);
    e.execute(Op::SkipIfEqual { x: 1, nn: 6 }).unwrap();
    assert_eq!(e.program_counter(), 0x202);
    e.execute(Op::SkipNotEqual { x: 1, nn: 6 }).unwrap();
    assert_eq!(e.program_counter(), 0x204);
    e.execute(Op::SkipNotEqual { x: 1, nn: 5 }).unwrap();
    assert_eq!(e.program_counter(), 0x204);
    e.execute(Op::SkipBothEqual { x: 1, y: 2 }).unwrap();
    assert_eq!(e.program_counter(), 0x206);
    e.execute(Op::SkipBothEqual { x: 1, y: 3 }).unwrap();
    assert_eq!(e.program_counter(), 0x206);
    e.execute(Op::SkipNoneEqual { x: 1, y: 3 }).unwrap();
    assert_eq!(e.program_counter(), 0x208);
    e.execute(Op::SkipNoneEqual { x: 1, y: 2 }).unwrap();
    assert_eq!(e.program_counter(), 0x208);
}

#[test]
fn key_skips_follow_the_latch() {
    let mut keys = [false; 16];
    keys[0xB] = true;
    let mut e = with_registers(&[(1, 0xB), (2, 0x3), (3, 16)]);
    e.set_keys(keys);
    e.execute(Op::SkipIfKey { x: 1 }).unwrap();
    assert_eq!(e.program_counter(), 0x202);
    e.execute(Op::SkipIfKey { x: 2 }).unwrap();
    assert_eq!(e.program_counter(), 0x202);
    e.execute(Op::SkipNotKey { x: 2 }).unwrap();
    assert_eq!(e.program_counter(), 0x204);
    e.execute(Op::SkipNotKey { x: 1 }).unwrap();
    assert_eq!(e.program_counter(), 0x204);
    assert_eq!(e.execute(Op::SkipIfKey { x: 3 }), Err(Error::OutOfBounds));
    assert_eq!(e.execute(Op::SkipNotKey { x: 3 }), Err(Error::OutOfBounds));
    assert_eq!(e.program_counter(), 0x204);
}

#[test]
fn key_wait_holds_pc_until_a_key_is_pressed() {
    // F50A at 0x200; 6601 at 0x202.
    let mut e = with_program(&[0xF5, 0x0A, 0x66, 0x01]);
    for _ in 0..30 {
        e.cycle().unwrap();
        assert_eq!(e.program_counter(), 0x200);
        assert_eq!(e.register_v()[5], 0);
    }
    let mut keys = [false; 16];
    keys[0xC] = true;
    keys[0x7] = true;
    e.set_keys(keys);
    e.cycle().unwrap();
    assert_eq!(e.program_counter(), 0x202);
    assert_eq!(e.register_v()[5], 0x7);
    e.cycle().unwrap();
    assert_eq!(e.program_counter(), 0x204);
    assert_eq!(e.register_v()[6], 1);
}

#[test]
fn key_wait_at_address_zero_is_out_of_bounds() {
    let mut e = Emulator::new();
    e.execute(Op::Jump { addr: 0 }).unwrap();
    assert_eq!(e.execute(Op::GetKey { x: 1 }), Err(Error::OutOfBounds));
    assert_eq!(e.program_counter(), 0);
}

#[test]
fn undecodable_word_halts_the_cycle_and_changes_nothing() {
    let mut e = with_program(&[0x61, 0x09, 0xF1, 0x15, 0x51, 0x23]);
    e.cycle().unwrap();
    e.cycle().unwrap();
    assert_eq!(e.delay_timer(), 9);
    for _ in 0..20 {
        assert_eq!(e.cycle(), Err(Error::Decode { addr: 0x204, word: 0x5123 }));
        assert_eq!(e.program_counter(), 0x204);
        assert_eq!(e.delay_timer(), 9);
        assert_eq!(e.register_v()[1], 9);
    }
    assert_eq!(e.next_op(), Err(Error::Decode { addr: 0x204, word: 0x5123 }));
}

#[test]
fn failing_instruction_leaves_pc_at_itself() {
    // 00EE at 0x200 with an empty stack.
    let mut e = with_program(&[0x00, 0xEE]);
    assert_eq!(e.cycle(), Err(Error::StackUnderflow));
    assert_eq!(e.program_counter(), 0x200);
    assert_eq!(e.cycle_with(3), Err(Error::StackUnderflow));
    assert_eq!(e.program_counter(), 0x200);
}

#[test]
fn fetch_past_memory_is_out_of_bounds() {
    let mut e = Emulator::new();
    e.execute(Op::Jump { addr: 0xFFF }).unwrap();
    assert_eq!(e.cycle(), Err(Error::OutOfBounds));
    assert_eq!(e.program_counter(), 0xFFF);
    assert_eq!(e.next_op(), Err(Error::OutOfBounds));
}

#[test]
fn operand_out_of_range_is_out_of_bounds() {
    let mut e = Emulator::new();
    assert_eq!(e.execute(Op::SetVx { x: 16, nn: 1 }), Err(Error::OutOfBounds));
    assert_eq!(e.execute(Op::Jump { addr: 0x1000 }), Err(Error::OutOfBounds));
    assert_eq!(e.execute(Op::Draw { x: 0, y: 0, n: 16 }), Err(Error::OutOfBounds));
    assert_eq!(e.program_counter(), 0x200);
    assert_eq!(*e.register_v(), [0u8; 16]);
}

#[test]
fn load_rom_copies_to_entry_offset() {
    let e = with_program(&[1, 2, 3]);
    assert_eq!(&e.memory()[0x1FF..0x204], &[0, 1, 2, 3, 0]);
    assert_eq!(e.memory()[0x50], 0xF0);
}

#[test]
fn load_rom_refuses_what_does_not_fit() {
    let mut e = Emulator::new();
    let too_long = vec![7u8; 4096 - 0x200 + 1];
    assert_eq!(e.load_rom(&too_long), Err(Error::OutOfBounds));
    assert_eq!(e.memory()[0x200], 0);
    let fits = vec![7u8; 4096 - 0x200];
    assert_eq!(e.load_rom(&fits), Ok(()));
    assert_eq!(e.memory()[0x200], 7);
    assert_eq!(e.memory()[0xFFF], 7);
    assert_eq!(e.memory()[0x1FF], 0);
}

#[test]
fn draw_glyph_on_blank_screen() {
    // Glyph 0 is F0 90 90 90 F0.
    let mut e = with_registers(&[(1, 3), (2, 4), (15, 9)]);
    e.execute(Op::SetIndex { addr: 0x50 }).unwrap();
    e.execute(Op::Draw { x: 1, y: 2, n: 5 }).unwrap();
    let mut want = Vec::new();
    for (r, row) in [0xF0u8, 0x90, 0x90, 0x90, 0xF0].iter().enumerate() {
        for b in 0..8 {
            if (row >> (7 - b)) & 1 == 1 {
                want.push((4 + r, 3 + b));
            }
        }
    }
    assert_eq!(lit_pixels(&e), want);
    assert_eq!(lit_pixels(&e).len(), 14);
    assert_eq!(e.register_v()[15], 0);
    assert_eq!(e.register_i(), 0x50);
}

#[test]
fn draw_twice_clears_and_reports_collision() {
    let mut e = with_registers(&[(1, 10), (2, 20)]);
    e.execute(Op::SetIndex { addr: 0x50 + 0xB * 5 }).unwrap();
    e.execute(Op::Draw { x: 1, y: 2, n: 5 }).unwrap();
    assert!(!lit_pixels(&e).is_empty());
    assert_eq!(e.register_v()[15], 0);
    e.execute(Op::Draw { x: 1, y: 2, n: 5 }).unwrap();
    assert!(lit_pixels(&e).is_empty());
    assert_eq!(e.register_v()[15], 1);
}

#[test]
fn draw_twice_on_fully_lit_pixels_reports_collision_first() {
    // Two overlapping solid rows: FF at 0x200.
    let mut e = with_program(&[0xFF]);
    e.execute(Op::SetIndex { addr: 0x200 }).unwrap();
    e.execute(Op::Draw { x: 0, y: 0, n: 1 }).unwrap();
    assert_eq!(lit_pixels(&e).len(), 8);
    // Now every pixel the sprite covers is lit.
    e.execute(Op::Draw { x: 0, y: 0, n: 1 }).unwrap();
    assert_eq!(e.register_v()[15], 1);
    assert!(lit_pixels(&e).is_empty());
    // On a blank screen again the draw lights pixels and reports none hit.
    e.execute(Op::Draw { x: 0, y: 0, n: 1 }).unwrap();
    assert_eq!(e.register_v()[15], 0);
    assert_eq!(lit_pixels(&e).len(), 8);
}

#[test]
fn draw_wraps_every_pixel_round_the_edges() {
    // C0 C0 at 0x200: a two by two block.
    let mut e = with_program(&[0xC0, 0xC0]);
    e.execute(Op::SetVx { x: 1, nn: 63 }).unwrap();
    e.execute(Op::SetVx { x: 2, nn: 31 }).unwrap();
    e.execute(Op::SetIndex { addr: 0x200 }).unwrap();
    e.execute(Op::Draw { x: 1, y: 2, n: 2 }).unwrap();
    assert_eq!(lit_pixels(&e), vec![(0, 0), (0, 63), (31, 0), (31, 63)]);
    assert_eq!(e.register_v()[15], 0);
}

#[test]
fn draw_wraps_origins_beyond_the_screen() {
    // 80 at 0x200: one pixel.
    let mut e = with_program(&[0x80]);
    e.execute(Op::SetVx { x: 1, nn: 250 }).unwrap();
    e.execute(Op::SetVx { x: 2, nn: 255 }).unwrap();
    e.execute(Op::SetIndex { addr: 0x200 }).unwrap();
    e.execute(Op::Draw { x: 1, y: 2, n: 1 }).unwrap();
    assert_eq!(lit_pixels(&e), vec![(255 % 32, 250 % 64)]);
}

#[test]
fn draw_of_no_rows_resets_the_flag_and_draws_nothing() {
    let mut e = with_registers(&[(15, 1)]);
    e.execute(Op::SetIndex { addr: 0x50 }).unwrap();
    e.execute(Op::Draw { x: 1, y: 2, n: 0 }).unwrap();
    assert!(lit_pixels(&e).is_empty());
    assert_eq!(e.register_v()[15], 0);
}

#[test]
fn draw_reading_past_memory_is_out_of_bounds() {
    let mut e = with_registers(&[(15, 1)]);
    e.execute(Op::SetIndex { addr: 0xFFE }).unwrap();
    assert_eq!(e.execute(Op::Draw { x: 1, y: 2, n: 3 }), Err(Error::OutOfBounds));
    assert_eq!(e.register_v()[15], 1);
    assert_eq!(e.execute(Op::Draw { x: 1, y: 2, n: 2 }), Ok(()));
}

#[test]
fn clear_screen_puts_every_pixel_out() {
    let mut e = Emulator::new();
    e.execute(Op::SetIndex { addr: 0x50 }).unwrap();
    e.execute(Op::Draw { x: 0, y: 0, n: 5 }).unwrap();
    assert!(!lit_pixels(&e).is_empty());
    e.execute(Op::ClearScreen).unwrap();
    assert!(lit_pixels(&e).is_empty());
}

#[test]
fn index_register_cannot_leave_sixteen_bits() {
    let mut e = with_registers(&[(1, 255)]);
    e.execute(Op::SetIndex { addr: 0xFFF }).unwrap();
    let mut index: u32 = 0xFFF;
    while index + 255 <= 0xFFFF {
        assert_eq!(e.execute(Op::AddToIndex { x: 1 }), Ok(()));
        index += 255;
        assert_eq!(e.register_i() as u32, index);
    }
    assert_eq!(e.execute(Op::AddToIndex { x: 1 }), Err(Error::OutOfBounds));
    assert_eq!(e.register_i() as u32, index);
}

#[test]
fn program_counter_cannot_leave_sixteen_bits() {
    let mut e = Emulator::new();
    let mut pc: u32 = 0x200;
    while pc + 2 <= 0xFFFF {
        assert_eq!(e.execute(Op::SkipIfEqual { x: 0, nn: 0 }), Ok(()));
        pc += 2;
    }
    assert_eq!(e.program_counter(), 0xFFFE);
    assert_eq!(e.execute(Op::SkipIfEqual { x: 0, nn: 0 }), Err(Error::OutOfBounds));
    assert_eq!(e.program_counter(), 0xFFFE);
    assert_eq!(e.execute(Op::SkipIfEqual { x: 0, nn: 1 }), Ok(()));
}
