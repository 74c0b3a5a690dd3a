use chip8::engine::Engine;
use chip8::error::Chip8Error;

fn rom_of(program: &[u16]) -> Vec<u8> {
    let mut rom = Vec::new();
    for w in program {
        rom.push((w >> 8) as u8);
        rom.push((w & 0xFF) as u8);
    }
    rom
}

fn boot(program: &[u16]) -> Engine {
    let mut e = Engine::new();
    e.load_rom(&rom_of(program)).unwrap();
    e
}

fn run(e: &mut Engine, cycles: usize) {
    for _ in 0..cycles {
        e.step(0).unwrap();
    }
}

fn registers(e: &Engine) -> Vec<u8> {
    (0..16).map(|x| e.register(x).unwrap()).collect()
}

fn lit_count(e: &Engine) -> usize {
    e.frame().iter().filter(|p| **p).count()
}

#[test]
fn a_new_machine_is_blank_but_for_the_font() {
    let e = Engine::new();
    assert_eq!(0x200, e.pc());
    assert_eq!(0, e.index());
    assert_eq!(vec![0u8; 16], registers(&e));
    assert_eq!(None, e.register(16));
    assert_eq!(0, e.delay());
    assert_eq!(0, e.sound());
    assert!(!e.tone());
    assert!(!e.awaiting_key());
    assert_eq!(0, e.stack_depth());
    assert_eq!(0, lit_count(&e));
    assert_eq!(2048, e.frame().len());
    // The font: digit 0 at 0x50, digit F at 0x9B.
    let zero: Vec<u8> = (0x50..0x55).map(|a| e.peek(a).unwrap()).collect();
    assert_eq!(vec![0xF0, 0x90, 0x90, 0x90, 0xF0], zero);
    let one: Vec<u8> = (0x55..0x5A).map(|a| e.peek(a).unwrap()).collect();
    assert_eq!(vec![0x20, 0x60, 0x20, 0x20, 0x70], one);
    let eff: Vec<u8> = (0x9B..0xA0).map(|a| e.peek(a).unwrap()).collect();
    assert_eq!(vec![0xF0, 0x80, 0xF0, 0x80, 0x80], eff);
    assert_eq!(Ok(0), e.peek(0x4F));
    assert_eq!(Ok(0), e.peek(0xA0));
    assert_eq!(Ok(0), e.peek(0x200));
    assert_eq!(Err(Chip8Error::OutOfBounds), e.peek(4096));
}

#[test]
fn a_rom_is_loaded_verbatim_at_0x200() {
    let mut e = Engine::new();
    assert_eq!(Ok(()), e.load_rom(&vec![0xAA, 0xBB, 0xCC]));
    assert_eq!(Ok(0), e.peek(0x1FF));
    assert_eq!(Ok(0xAA), e.peek(0x200));
    assert_eq!(Ok(0xBB), e.peek(0x201));
    assert_eq!(Ok(0xCC), e.peek(0x202));
    assert_eq!(Ok(0), e.peek(0x203));
    assert_eq!(0x200, e.pc());
    // The largest program that fits, and one byte more.
    assert_eq!(Ok(()), e.load_rom(&vec![0x11; 4096 - 0x200]));
    assert_eq!(Ok(0x11), e.peek(4095));
    assert_eq!(Err(Chip8Error::OutOfBounds), e.load_rom(&vec![0x22; 4096 - 0x200 + 1]));
    assert_eq!(Ok(0x11), e.peek(0x200));
    assert_eq!(Ok(()), e.load_rom(&Vec::new()));
}

#[test]
fn loading_a_rom_resets_the_program_counter() {
    let mut e = boot(&[0x1300]);
    run(&mut e, 1);
    assert_eq!(0x300, e.pc());
    e.load_rom(&rom_of(&[0x6001])).unwrap();
    assert_eq!(0x200, e.pc());
}

#[test]
fn loading_a_rom_ends_a_wait_for_a_key() {
    let mut e = boot(&[0x6A33, 0xF10A]);
    run(&mut e, 2);
    assert!(e.awaiting_key());
    e.load_rom(&rom_of(&[0x6001, 0x6102])).unwrap();
    assert!(!e.awaiting_key());
    assert_eq!(0x200, e.pc());
    // The registers are left as they are.
    assert_eq!(Some(0x33), e.register(0xA));
    e.key_down(4).unwrap();
    assert_eq!(0x200, e.pc());
    run(&mut e, 1);
    assert_eq!(Some(1), e.register(0));
    assert_eq!(Some(0), e.register(1));
}

#[test]
fn clear_load_and_jump_loop_forever() {
    let mut e = boot(&[0x00E0, 0x6005, 0x1200]);
    e.step(0).unwrap();
    assert_eq!(0x202, e.pc());
    assert_eq!(0, lit_count(&e));
    e.step(0).unwrap();
    assert_eq!(Some(5), e.register(0));
    assert_eq!(0x204, e.pc());
    e.step(0).unwrap();
    assert_eq!(0x200, e.pc());
    // From the second cycle on register 0 holds 5, and every third cycle
    // finds the program counter back at 0x200.
    for cycle in 4..=300 {
        e.step(cycle as u8).unwrap();
        assert_eq!(Some(5), e.register(0));
        assert_eq!(0x200 + 2 * (cycle % 3) as u16, e.pc());
        assert_eq!(0, e.stack_depth());
    }
    assert_eq!(0x200, e.pc());
}

#[test]
fn a_jump_to_itself_stays_where_it_is() {
    let mut e = boot(&[0x00E0, 0x6005, 0x1204]);
    run(&mut e, 2);
    for _ in 0..100 {
        e.step(0).unwrap();
        assert_eq!(Some(5), e.register(0));
        assert_eq!(0x204, e.pc());
    }
}

#[test]
fn clear_screen_turns_every_pixel_off() {
    // Draw the glyph of 0, then clear.
    let mut e = boot(&[0xA050, 0xD005, 0x00E0]);
    run(&mut e, 2);
    assert_eq!(14, lit_count(&e));
    run(&mut e, 1);
    assert_eq!(0, lit_count(&e));
    assert_eq!(0x206, e.pc());
}

#[test]
fn call_pushes_the_next_instruction_and_return_comes_back() {
    let mut e = boot(&[0x2206, 0x6101, 0x1202, 0x6002, 0x00EE]);
    run(&mut e, 1);
    assert_eq!(0x206, e.pc());
    assert_eq!(1, e.stack_depth());
    run(&mut e, 1);
    assert_eq!(Some(2), e.register(0));
    run(&mut e, 1);
    assert_eq!(0x202, e.pc());
    assert_eq!(0, e.stack_depth());
    run(&mut e, 1);
    assert_eq!(Some(1), e.register(1));
}

#[test]
fn the_seventeenth_nested_call_overflows() {
    // A subroutine that calls itself.
    let mut e = boot(&[0x2200]);
    for depth in 1..=16 {
        assert_eq!(Ok(()), e.step(0));
        assert_eq!(depth, e.stack_depth());
    }
    assert_eq!(Err(Chip8Error::StackOverflow), e.step(0));
    assert_eq!(16, e.stack_depth());
    assert_eq!(0x200, e.pc());
}

#[test]
fn a_return_without_a_call_underflows() {
    let mut e = boot(&[0x00EE]);
    assert_eq!(Err(Chip8Error::StackUnderflow), e.step(0));
    assert_eq!(0x200, e.pc());
}

#[test]
fn a_word_that_is_no_instruction_is_fatal() {
    for word in [0x5001u16, 0x8008, 0x9001, 0xE000, 0xF0FF, 0xFFFF] {
        let mut e = boot(&[0x6A07, word]);
        assert_eq!(Ok(()), e.step(0));
        assert_eq!(Err(Chip8Error::IllegalOpcode), e.step(0));
        // Nothing moved.
        assert_eq!(0x202, e.pc());
        assert_eq!(Some(7), e.register(0xA));
    }
}

#[test]
fn a_fetch_outside_memory_is_fatal() {
    // The word at 0xFFF would need the byte at 0x1000.
    let mut e = boot(&[0x1FFF]);
    assert_eq!(Ok(()), e.step(0));
    assert_eq!(0xFFF, e.pc());
    assert_eq!(Err(Chip8Error::OutOfBounds), e.step(0));
    assert_eq!(0xFFF, e.pc());
    // Jump past the end by way of register 0.
    let mut e = boot(&[0x60FF, 0xBFFF]);
    run(&mut e, 2);
    assert_eq!(0xFFF + 0xFF, e.pc());
    assert_eq!(Err(Chip8Error::OutOfBounds), e.step(0));
    // Running off the end of memory.
    let mut e = boot(&[0x1FFE]);
    run(&mut e, 2);
    assert_eq!(0x1000, e.pc());
    assert_eq!(Err(Chip8Error::OutOfBounds), e.step(0));
}

#[test]
fn a_machine_code_call_is_passed_over() {
    let mut e = boot(&[0x0123, 0x6001]);
    run(&mut e, 1);
    assert_eq!(0x202, e.pc());
    assert_eq!(vec![0u8; 16], registers(&e));
    assert_eq!(0, e.stack_depth());
}

#[test]
fn skips_on_a_byte() {
    // 3xkk skips when equal.
    let mut e = boot(&[0x6A42, 0x3A42]);
    run(&mut e, 2);
    assert_eq!(0x206, e.pc());
    let mut e = boot(&[0x6A42, 0x3A43]);
    run(&mut e, 2);
    assert_eq!(0x204, e.pc());
    // 4xkk skips when different.
    let mut e = boot(&[0x6A42, 0x4A42]);
    run(&mut e, 2);
    assert_eq!(0x204, e.pc());
    let mut e = boot(&[0x6A42, 0x4A43]);
    run(&mut e, 2);
    assert_eq!(0x206, e.pc());
}

#[test]
fn skips_on_two_registers() {
    let mut e = boot(&[0x6107, 0x6207, 0x5120]);
    run(&mut e, 3);
    assert_eq!(0x208, e.pc());
    let mut e = boot(&[0x6107, 0x6208, 0x5120]);
    run(&mut e, 3);
    assert_eq!(0x206, e.pc());
    let mut e = boot(&[0x6107, 0x6207, 0x9120]);
    run(&mut e, 3);
    assert_eq!(0x206, e.pc());
    let mut e = boot(&[0x6107, 0x6208, 0x9120]);
    run(&mut e, 3);
    assert_eq!(0x208, e.pc());
}

#[test]
fn add_byte_wraps_and_leaves_the_flag() {
    let mut e = boot(&[0x6FAA, 0x61FF, 0x7102]);
    run(&mut e, 3);
    assert_eq!(Some(1), e.register(1));
    assert_eq!(Some(0xAA), e.register(0xF));
    assert_eq!(0x206, e.pc());
}

#[test]
fn copy_and_bitwise_instructions() {
    let mut e = boot(&[0x61CC, 0x62AA, 0x8320, 0x8121]);
    run(&mut e, 4);
    assert_eq!(Some(0xAA), e.register(3));
    assert_eq!(Some(0xEE), e.register(1));
    let mut e = boot(&[0x61CC, 0x62AA, 0x8122]);
    run(&mut e, 3);
    assert_eq!(Some(0x88), e.register(1));
    let mut e = boot(&[0x61CC, 0x62AA, 0x6F33, 0x8123]);
    run(&mut e, 4);
    assert_eq!(Some(0x66), e.register(1));
    assert_eq!(Some(0xAA), e.register(2));
    // The flag is left alone by the bitwise instructions.
    assert_eq!(Some(0x33), e.register(0xF));
}

#[test]
fn add_sets_the_carry() {
    let mut e = boot(&[0x61F0, 0x6220, 0x8124]);
    run(&mut e, 3);
    assert_eq!(Some(0x10), e.register(1));
    assert_eq!(Some(1), e.register(0xF));
    let mut e = boot(&[0x6F09, 0x61F0, 0x620F, 0x8124]);
    run(&mut e, 4);
    assert_eq!(Some(0xFF), e.register(1));
    assert_eq!(Some(0), e.register(0xF));
}

#[test]
fn subtract_sets_the_flag_when_nothing_is_borrowed() {
    // VX - VY
    let mut e = boot(&[0x6109, 0x6204, 0x8125]);
    run(&mut e, 3);
    assert_eq!(Some(5), e.register(1));
    assert_eq!(Some(1), e.register(0xF));
    let mut e = boot(&[0x6104, 0x6209, 0x8125]);
    run(&mut e, 3);
    assert_eq!(Some(251), e.register(1));
    assert_eq!(Some(0), e.register(0xF));
    let mut e = boot(&[0x6104, 0x6204, 0x8125]);
    run(&mut e, 3);
    assert_eq!(Some(0), e.register(1));
    assert_eq!(Some(1), e.register(0xF));
    // VY - VX
    let mut e = boot(&[0x6104, 0x6209, 0x8127]);
    run(&mut e, 3);
    assert_eq!(Some(5), e.register(1));
    assert_eq!(Some(9), e.register(2));
    assert_eq!(Some(1), e.register(0xF));
    let mut e = boot(&[0x6109, 0x6204, 0x8127]);
    run(&mut e, 3);
    assert_eq!(Some(251), e.register(1));
    assert_eq!(Some(0), e.register(0xF));
}

#[test]
fn shifts_put_the_lost_bit_into_the_flag() {
    let mut e = boot(&[0x6105, 0x62FF, 0x8126]);
    run(&mut e, 3);
    assert_eq!(Some(2), e.register(1));
    assert_eq!(Some(0xFF), e.register(2));
    assert_eq!(Some(1), e.register(0xF));
    let mut e = boot(&[0x6104, 0x6F07, 0x8126]);
    run(&mut e, 3);
    assert_eq!(Some(2), e.register(1));
    assert_eq!(Some(0), e.register(0xF));
    let mut e = boot(&[0x6181, 0x812E]);
    run(&mut e, 2);
    assert_eq!(Some(2), e.register(1));
    assert_eq!(Some(1), e.register(0xF));
    let mut e = boot(&[0x6141, 0x6F07, 0x812E]);
    run(&mut e, 3);
    assert_eq!(Some(0x82), e.register(1));
    assert_eq!(Some(0), e.register(0xF));
}

#[test]
fn the_flag_wins_where_it_is_also_the_target() {
    // VF = VF + V1 carries: the flag, not the sum, stays in VF.
    let mut e = boot(&[0x6FF0, 0x6120, 0x8F14]);
    run(&mut e, 3);
    assert_eq!(Some(1), e.register(0xF));
    let mut e = boot(&[0x6F10, 0x6120, 0x8F14]);
    run(&mut e, 3);
    assert_eq!(Some(0), e.register(0xF));
    // VF = VF - V1 without a borrow.
    let mut e = boot(&[0x6F09, 0x6104, 0x8F15]);
    run(&mut e, 3);
    assert_eq!(Some(1), e.register(0xF));
    // VF shifted right: the lost bit, not the half.
    let mut e = boot(&[0x6F06, 0x8F06]);
    run(&mut e, 2);
    assert_eq!(Some(0), e.register(0xF));
    // VF as the second operand is read before it is written.
    let mut e = boot(&[0x6F03, 0x6105, 0x81F4]);
    run(&mut e, 3);
    assert_eq!(Some(8), e.register(1));
    assert_eq!(Some(0), e.register(0xF));
}

#[test]
fn index_register_instructions() {
    let mut e = boot(&[0xAFFF, 0x6102, 0xF11E]);
    run(&mut e, 1);
    assert_eq!(0xFFF, e.index());
    run(&mut e, 2);
    assert_eq!(0x1001, e.index());
    assert_eq!(Some(0), e.register(0xF));
    assert_eq!(0x206, e.pc());
}

#[test]
fn adding_to_the_index_register_wraps_at_sixteen_bits() {
    // Sixteen additions of 0xFF to 0xFFF give 0x1FEF; keep adding until it wraps.
    let mut program: Vec<u16> = vec![0xAFFF, 0x61FF];
    for _ in 0..241 {
        program.push(0xF11E);
    }
    let mut e = boot(&program);
    run(&mut e, 2 + 240);
    assert_eq!(0xFFF + 240 * 0xFF, e.index() as u32);
    run(&mut e, 1);
    assert_eq!((0xFFF + 241 * 0xFF) % 0x10000, e.index() as u32);
    assert_eq!(0xFFF + 241 * 0xFF - 0x10000, e.index() as u32);
}

#[test]
fn jump_with_offset_adds_register_zero() {
    let mut e = boot(&[0x6010, 0xB300]);
    run(&mut e, 2);
    assert_eq!(0x310, e.pc());
}

#[test]
fn random_is_masked() {
    let mut e = boot(&[0xC10F, 0xC2F0, 0xC3FF, 0xC400]);
    e.step(0xAB).unwrap();
    e.step(0xAB).unwrap();
    e.step(0xAB).unwrap();
    e.step(0xAB).unwrap();
    assert_eq!(Some(0x0B), e.register(1));
    assert_eq!(Some(0xA0), e.register(2));
    assert_eq!(Some(0xAB), e.register(3));
    assert_eq!(Some(0x00), e.register(4));
    assert_eq!(0x208, e.pc());
}

#[test]
fn only_the_random_instruction_looks_at_the_random_byte() {
    let program = [0x6005, 0x7003, 0xA123, 0x8004];
    let mut a = boot(&program);
    let mut b = boot(&program);
    for k in 0..4u8 {
        a.step(0).unwrap();
        b.step(0xFF - k).unwrap();
        assert_eq!(registers(&a), registers(&b));
        assert_eq!(a.pc(), b.pc());
        assert_eq!(a.index(), b.index());
    }
}

#[test]
fn draw_takes_its_rows_from_the_index_register() {
    // The glyph of 1 at column 10, row 3.
    let mut e = boot(&[0x610A, 0x6203, 0xA055, 0xD125]);
    run(&mut e, 4);
    assert_eq!(Some(0), e.register(0xF));
    assert_eq!(0x208, e.pc());
    // 0x20, 0x60, 0x20, 0x20, 0x70
    let expected: Vec<(usize, usize)> =
        vec![(12, 3), (11, 4), (12, 4), (12, 5), (12, 6), (11, 7), (12, 7), (13, 7)];
    for y in 0..32 {
        for x in 0..64 {
            assert_eq!(Some(expected.contains(&(x, y))), e.pixel(x, y));
        }
    }
    assert_eq!(None, e.pixel(64, 0));
    assert_eq!(None, e.pixel(0, 32));
}

#[test]
fn drawing_the_same_sprite_again_clears_it_and_sets_the_flag() {
    let mut e = boot(&[0x613E, 0x621E, 0xA05A, 0xD125, 0xD125, 0xD125]);
    run(&mut e, 4);
    assert_eq!(Some(0), e.register(0xF));
    let lit = lit_count(&e);
    assert_eq!(14, lit);
    run(&mut e, 1);
    assert_eq!(Some(1), e.register(0xF));
    assert_eq!(0, lit_count(&e));
    run(&mut e, 1);
    assert_eq!(Some(0), e.register(0xF));
    assert_eq!(14, lit_count(&e));
}

#[test]
fn draw_wraps_around_the_edges() {
    // One row 0xF0 (the top of the glyph of 0) at column 62, row 31.
    let mut e = boot(&[0x613E, 0x621F, 0xA050, 0xD121]);
    run(&mut e, 4);
    assert_eq!(Some(true), e.pixel(62, 31));
    assert_eq!(Some(true), e.pixel(63, 31));
    assert_eq!(Some(true), e.pixel(0, 31));
    assert_eq!(Some(true), e.pixel(1, 31));
    assert_eq!(4, lit_count(&e));
    // Two rows: the second one wraps to the top row.
    let mut e = boot(&[0x6100, 0x621F, 0xA050, 0xD122]);
    run(&mut e, 4);
    assert_eq!(Some(true), e.pixel(0, 31));
    assert_eq!(Some(true), e.pixel(0, 0));
    assert_eq!(Some(true), e.pixel(3, 0));
    assert_eq!(Some(false), e.pixel(1, 0));
    assert_eq!(6, lit_count(&e));
}

#[test]
fn draw_wants_sixteen_bytes_in_front_of_the_index_register() {
    // 0xFF0 + 16 == 0x1000: accepted.
    let mut e = boot(&[0xAFF0, 0xD001]);
    run(&mut e, 1);
    assert_eq!(Ok(()), e.step(0));
    // One further: refused, although only one row is asked for.
    let mut e = boot(&[0xAFF1, 0xD001]);
    run(&mut e, 1);
    assert_eq!(Err(Chip8Error::OutOfBounds), e.step(0));
    assert_eq!(0x202, e.pc());
    // Even for no rows at all.
    let mut e = boot(&[0xAFF1, 0xD000]);
    run(&mut e, 1);
    assert_eq!(Err(Chip8Error::OutOfBounds), e.step(0));
}

#[test]
fn the_flag_register_can_hold_a_drawing_position() {
    // Column from VF: the position is read before the collision is written.
    let mut e = boot(&[0x6F05, 0x6102, 0xA050, 0xDF11]);
    run(&mut e, 4);
    assert_eq!(Some(true), e.pixel(5, 2));
    assert_eq!(Some(0), e.register(0xF));
}

#[test]
fn key_skips() {
    let mut e = boot(&[0x6107, 0xE19E]);
    e.key_down(7).unwrap();
    run(&mut e, 2);
    assert_eq!(0x206, e.pc());
    let mut e = boot(&[0x6107, 0xE19E]);
    e.key_down(8).unwrap();
    run(&mut e, 2);
    assert_eq!(0x204, e.pc());
    let mut e = boot(&[0x6107, 0xE1A1]);
    e.key_down(7).unwrap();
    run(&mut e, 2);
    assert_eq!(0x204, e.pc());
    let mut e = boot(&[0x6107, 0xE1A1]);
    run(&mut e, 2);
    assert_eq!(0x206, e.pc());
    // A key that went up again is up.
    let mut e = boot(&[0x6107, 0xE19E]);
    e.key_down(7).unwrap();
    e.key_up(7).unwrap();
    run(&mut e, 2);
    assert_eq!(0x204, e.pc());
    // Only the low digit of the register names the key.
    let mut e = boot(&[0x61F7, 0xE19E]);
    e.key_down(7).unwrap();
    run(&mut e, 2);
    assert_eq!(0x206, e.pc());
}

#[test]
fn there_are_sixteen_keys() {
    let mut e = Engine::new();
    for key in 0..16 {
        assert_eq!(Ok(()), e.key_down(key));
        assert_eq!(Ok(()), e.key_up(key));
    }
    assert_eq!(Err(Chip8Error::OutOfBounds), e.key_down(16));
    assert_eq!(Err(Chip8Error::OutOfBounds), e.key_up(16));
    assert_eq!(Err(Chip8Error::OutOfBounds), e.key_down(255));
}

#[test]
fn wait_for_key_halts_until_a_key_goes_down() {
    let mut e = boot(&[0xF30A, 0x6101]);
    e.key_down(2).unwrap();
    e.step(0).unwrap();
    // A key that is already down is no new key.
    assert!(e.awaiting_key());
    assert_eq!(0x200, e.pc());
    for _ in 0..10 {
        e.step(0).unwrap();
        e.tick_timers();
        assert!(e.awaiting_key());
        assert_eq!(0x200, e.pc());
        assert_eq!(Some(0), e.register(3));
    }
    // A key going up does not wake the machine.
    e.key_up(2).unwrap();
    assert!(e.awaiting_key());
    // No such key: the machine goes on waiting.
    assert_eq!(Err(Chip8Error::OutOfBounds), e.key_down(16));
    assert!(e.awaiting_key());
    e.key_down(0xB).unwrap();
    assert!(!e.awaiting_key());
    assert_eq!(Some(0xB), e.register(3));
    assert_eq!(0x202, e.pc());
    e.step(0).unwrap();
    assert_eq!(Some(1), e.register(1));
}

#[test]
fn timers_are_set_read_and_ticked() {
    let mut e = boot(&[0x6103, 0x6205, 0xF115, 0xF218, 0xF307]);
    run(&mut e, 4);
    assert_eq!(3, e.delay());
    assert_eq!(5, e.sound());
    assert!(e.tone());
    e.tick_timers();
    assert_eq!(2, e.delay());
    assert_eq!(4, e.sound());
    run(&mut e, 1);
    assert_eq!(Some(2), e.register(3));
    for _ in 0..2 {
        e.tick_timers();
    }
    assert_eq!(0, e.delay());
    assert_eq!(2, e.sound());
    for _ in 0..5 {
        e.tick_timers();
    }
    assert_eq!(0, e.delay());
    assert_eq!(0, e.sound());
    assert!(!e.tone());
    // Ticks touch nothing else.
    assert_eq!(0x20A, e.pc());
    assert_eq!(Some(3), e.register(1));
}

#[test]
fn cycles_do_not_tick_the_timers() {
    let mut e = boot(&[0x6109, 0xF115, 0x1204]);
    run(&mut e, 50);
    assert_eq!(9, e.delay());
}

#[test]
fn font_address_of_each_digit() {
    for digit in 0..16u16 {
        let mut e = boot(&[0x6100 | digit, 0xF129]);
        run(&mut e, 2);
        assert_eq!(0x50 + 5 * digit, e.index());
    }
    // Only the low digit counts.
    let mut e = boot(&[0x61A3, 0xF129]);
    run(&mut e, 2);
    assert_eq!(0x50 + 5 * 3, e.index());
}

#[test]
fn decimal_digits_are_stored_at_the_index_register() {
    let mut e = boot(&[0x617B, 0xA345, 0xF133]);
    run(&mut e, 3);
    assert_eq!(Ok(1), e.peek(0x345));
    assert_eq!(Ok(2), e.peek(0x346));
    assert_eq!(Ok(3), e.peek(0x347));
    assert_eq!(0x345, e.index());
    // The last place where three digits fit, and the first where not.
    let mut e = boot(&[0x61FF, 0xAFFD, 0xF133]);
    run(&mut e, 3);
    assert_eq!(Ok(2), e.peek(0xFFD));
    assert_eq!(Ok(5), e.peek(0xFFE));
    assert_eq!(Ok(5), e.peek(0xFFF));
    let mut e = boot(&[0x61FF, 0xAFFE, 0xF133]);
    run(&mut e, 2);
    assert_eq!(Err(Chip8Error::OutOfBounds), e.step(0));
    assert_eq!(Ok(0), e.peek(0xFFE));
    assert_eq!(Ok(0), e.peek(0xFFF));
    assert_eq!(0x204, e.pc());
}

#[test]
fn registers_are_stored_in_their_order() {
    let mut e = boot(&[0x600A, 0x610B, 0x620C, 0x630D, 0xA300, 0xF255]);
    run(&mut e, 6);
    assert_eq!(Ok(0x0A), e.peek(0x300));
    assert_eq!(Ok(0x0B), e.peek(0x301));
    assert_eq!(Ok(0x0C), e.peek(0x302));
    assert_eq!(Ok(0x00), e.peek(0x303));
    assert_eq!(0x300, e.index());
    assert_eq!(Some(0x0D), e.register(3));
    assert_eq!(0x20C, e.pc());
}

#[test]
fn a_store_past_the_end_changes_nothing() {
    let mut e = boot(&[0x6011, 0x6122, 0xAFFF, 0xF155]);
    run(&mut e, 3);
    assert_eq!(Err(Chip8Error::OutOfBounds), e.step(0));
    assert_eq!(Ok(0), e.peek(0xFFF));
    assert_eq!(0x206, e.pc());
    // One register fits into the last byte.
    let mut e = boot(&[0x6011, 0xAFFF, 0xF055]);
    run(&mut e, 3);
    assert_eq!(Ok(0x11), e.peek(0xFFF));
}

#[test]
fn registers_are_loaded_in_their_order() {
    // Load V0..V4 from the glyph of 2.
    let mut e = boot(&[0x65EE, 0xA05A, 0xF465]);
    run(&mut e, 3);
    let mut expected = vec![0u8; 16];
    expected[..5].copy_from_slice(&[0xF0, 0x10, 0xF0, 0x80, 0xF0]);
    expected[5] = 0xEE;
    assert_eq!(expected, registers(&e));
    assert_eq!(0x05A, e.index());
    assert_eq!(0x206, e.pc());
}

#[test]
fn store_then_load_gives_the_registers_back() {
    let mut program: Vec<u16> = Vec::new();
    for x in 0..16u16 {
        program.push(0x6000 | (x << 8) | (0x10 + x));
    }
    program.push(0xA400);
    program.push(0xFF55);
    for x in 0..16u16 {
        program.push(0x6000 | (x << 8));
    }
    program.push(0xFF65);
    let mut e = boot(&program);
    run(&mut e, 18);
    for x in 0..16usize {
        assert_eq!(Ok(0x10 + x as u8), e.peek(0x400 + x));
    }
    run(&mut e, 16);
    assert_eq!(vec![0u8; 16], registers(&e));
    run(&mut e, 1);
    assert_eq!((0x10..0x20).collect::<Vec<u8>>(), registers(&e));
}

#[test]
fn a_load_wants_sixteen_bytes_in_front_of_the_index_register() {
    let mut e = boot(&[0xAFF0, 0xF065]);
    run(&mut e, 1);
    assert_eq!(Ok(()), e.step(0));
    let mut e = boot(&[0x6077, 0xAFF1, 0xF065]);
    run(&mut e, 2);
    assert_eq!(Err(Chip8Error::OutOfBounds), e.step(0));
    assert_eq!(Some(0x77), e.register(0));
    assert_eq!(0x204, e.pc());
}

#[test]
fn a_program_can_overwrite_itself() {
    // Store V0, V1 over the instruction that follows: 0x6205 becomes 0x6309.
    let mut e = boot(&[0x6063, 0x6109, 0xA208, 0xF155, 0x6205]);
    run(&mut e, 5);
    assert_eq!(Some(0), e.register(2));
    assert_eq!(Some(9), e.register(3));
}
