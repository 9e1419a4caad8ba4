use chip8::chip8::Chip8;
use chip8::cpu::Fault;
use chip8::display::Display;

/// Execute one instruction directly, expecting it to succeed.
fn exec(c: &mut Chip8, ins: u16) {
    c.cpu
        .exec_instruction(&mut c.bus, ins)
        .expect("instruction should execute");
}

/// Execute one instruction directly, expecting a fault.
fn exec_err(c: &mut Chip8, ins: u16) -> Fault {
    c.cpu
        .exec_instruction(&mut c.bus, ins)
        .expect_err("instruction should fault")
}

#[test]
fn add_imm_wraps_for_every_register() {
    for x in 0u16..16 {
        let mut c = Chip8::new();
        c.cpu.reg[x as usize] = 0xFF;
        exec(&mut c, 0x7002 | (x << 8));
        assert_eq!(c.cpu.reg[x as usize], 0x01);
        for j in 0..16 {
            if j != x as usize {
                assert_eq!(c.cpu.reg[j], 0x00);
            }
        }
    }
}

#[test]
fn add_reg_sets_carry_iff_sum_overflows() {
    let mut c = Chip8::new();
    c.cpu.reg[0] = 200;
    c.cpu.reg[1] = 100;
    exec(&mut c, 0x8014);
    assert_eq!(c.cpu.reg[0], 44); // (200 + 100) mod 256
    assert_eq!(c.cpu.reg[0xF], 1);

    let mut c = Chip8::new();
    c.cpu.reg[0] = 10;
    c.cpu.reg[1] = 20;
    exec(&mut c, 0x8014);
    assert_eq!(c.cpu.reg[0], 30);
    assert_eq!(c.cpu.reg[0xF], 0);
}

#[test]
fn sub_wraps_and_clears_borrow_flag() {
    let mut c = Chip8::new();
    c.cpu.reg[0] = 0x05;
    c.cpu.reg[1] = 0x0A;
    exec(&mut c, 0x8015);
    assert_eq!(c.cpu.reg[0xF], 0);
    assert_eq!(c.cpu.reg[0], 0xFB);
}

#[test]
fn subn_wraps_the_other_way() {
    let mut c = Chip8::new();
    c.cpu.reg[0] = 0x05;
    c.cpu.reg[1] = 0x0A;
    exec(&mut c, 0x8017); // V0 = V1 - V0
    assert_eq!(c.cpu.reg[0xF], 1);
    assert_eq!(c.cpu.reg[0], 0x05);
}

#[test]
fn draw_reports_collision_on_second_pass() {
    let mut c = Chip8::new();
    c.load_mem(&vec![0xFF], 0x300);
    exec(&mut c, 0xA300); // I = 0x300
    exec(&mut c, 0xD011); // draw 1-row sprite at (V0, V1) = (0, 0)
    assert_eq!(c.cpu.reg[0xF], 0);
    for x in 0..8 {
        assert!(c.bus.display.get_pixel(x, 0));
    }
    exec(&mut c, 0xD011);
    assert_eq!(c.cpu.reg[0xF], 1);
    // The XOR blit self-cancels: every pixel is dark again.
    for x in 0..8 {
        assert!(!c.bus.display.get_pixel(x, 0));
    }
}

#[test]
fn draw_wraps_coordinates() {
    let mut c = Chip8::new();
    c.load_mem(&vec![0x80], 0x300); // single pixel, leftmost bit
    c.cpu.reg[0] = 63; // column 63
    c.cpu.reg[1] = 33; // row 33 wraps to row 1
    exec(&mut c, 0xA300);
    exec(&mut c, 0xD011);
    assert!(c.bus.display.get_pixel(63, 1));
}

#[test]
fn jump_then_cycle_lands_past_the_target() {
    let mut c = Chip8::new();
    c.load_mem(&vec![0x13, 0x00], 0x200); // jump to 0x300
    c.load_mem(&vec![0x60, 0x05], 0x300); // V0 = 5
    c.exec_cycle(1).expect("cycle should execute");
    assert_eq!(c.cpu.pc, 0x300);
    c.exec_cycle(200).expect("cycle should execute");
    assert_eq!(c.cpu.pc, 0x302);
    assert_eq!(c.cpu.reg[0], 5);
}

#[test]
fn return_with_empty_stack_is_a_fatal_underflow() {
    let mut c = Chip8::new();
    let f = exec_err(&mut c, 0x00EE);
    assert_eq!(f, Fault::StackUnderflow);
    assert_eq!(c.cpu.pc, 0x200); // the machine is left untouched
}

#[test]
fn call_and_return_round_trip() {
    let mut c = Chip8::new();
    exec(&mut c, 0x2300);
    assert_eq!(c.cpu.pc, 0x300);
    exec(&mut c, 0x00EE);
    assert_eq!(c.cpu.pc, 0x202);
}

#[test]
fn bcd_writes_hundreds_tens_units() {
    let mut c = Chip8::new();
    c.cpu.reg[0] = 234;
    exec(&mut c, 0xA300);
    exec(&mut c, 0xF033);
    assert_eq!(c.bus.ram.read_byte(0x300), 2);
    assert_eq!(c.bus.ram.read_byte(0x301), 3);
    assert_eq!(c.bus.ram.read_byte(0x302), 4);
}

#[test]
fn timers_decrement_at_sixty_hz_and_floor_at_zero() {
    let mut c = Chip8::new();
    c.cpu.dt = 5;
    c.cpu.st = 2;
    // Put the core into the wait state so cycles run no instructions: the
    // timers must tick regardless.
    exec(&mut c, 0xF10A);
    let mut now = 0u64;
    for expected in [4u8, 3, 2, 1, 0, 0, 0] {
        now += 16667; // just over one sixtieth of a second
        c.exec_cycle(now).expect("cycle");
        assert_eq!(c.cpu.dt, expected);
    }
    assert_eq!(c.cpu.st, 0);
}

#[test]
fn timers_hold_within_a_period() {
    let mut c = Chip8::new();
    c.cpu.dt = 5;
    exec(&mut c, 0xF10A); // wait state: cycles only touch the timers
    c.exec_cycle(10_000).expect("cycle");
    assert_eq!(c.cpu.dt, 5); // only 10 ms of the 16.6 ms period elapsed
    c.exec_cycle(16_667).expect("cycle");
    assert_eq!(c.cpu.dt, 4);
}

#[test]
fn wait_for_key_halts_until_a_key_arrives() {
    let mut c = Chip8::new();
    c.load_mem(&vec![0xF1, 0x0A, 0x60, 0x05], 0x200);
    c.exec_cycle(1).expect("cycle");
    assert_eq!(c.cpu.pc, 0x200); // the counter stays on the wait instruction
    assert!(c.cpu.wait_for_input);
    c.exec_cycle(100).expect("cycle");
    assert_eq!(c.cpu.pc, 0x200); // no new fetch while waiting
    c.resolve_key_wait(150); // no key pressed: still waiting
    assert!(c.cpu.wait_for_input);
    c.bus.keyboard.set_key(7, true);
    c.resolve_key_wait(200);
    assert!(!c.cpu.wait_for_input);
    assert_eq!(c.cpu.reg[1], 7); // the pressed key's index landed in V1
    assert_eq!(c.cpu.pc, 0x202);
    c.exec_cycle(300).expect("cycle"); // normal execution resumes
    assert_eq!(c.cpu.reg[0], 5);
    assert_eq!(c.cpu.pc, 0x204);
}

#[test]
fn wait_resolution_takes_the_smallest_pressed_key() {
    let mut c = Chip8::new();
    exec(&mut c, 0xF00A);
    c.bus.keyboard.set_key(9, true);
    c.bus.keyboard.set_key(3, true);
    c.resolve_key_wait(10);
    assert_eq!(c.cpu.reg[0], 3);
}

#[test]
fn illegal_instructions_fault() {
    for ins in [0x0000u16, 0x0100, 0x8008, 0x800F, 0xE001, 0xF0FF, 0xF000] {
        let mut c = Chip8::new();
        assert_eq!(exec_err(&mut c, ins), Fault::IllegalInstruction);
        assert_eq!(c.cpu.pc, 0x200);
    }
}

#[test]
fn draw_past_memory_end_faults() {
    let mut c = Chip8::new();
    exec(&mut c, 0xAFFF); // I = 0xFFF
    assert_eq!(exec_err(&mut c, 0xD002), Fault::OutOfBounds);
    // A one-row sprite still fits: it reads the very last byte.
    exec(&mut c, 0xD001);
}

#[test]
fn bcd_past_memory_end_faults() {
    let mut c = Chip8::new();
    exec(&mut c, 0xAFFE); // I = 0xFFE: the three digits would reach 0x1000
    assert_eq!(exec_err(&mut c, 0xF033), Fault::OutOfBounds);
}

#[test]
fn register_store_past_memory_end_faults() {
    let mut c = Chip8::new();
    exec(&mut c, 0xAFFF);
    assert_eq!(exec_err(&mut c, 0xF155), Fault::OutOfBounds);
    assert_eq!(exec_err(&mut c, 0xF165), Fault::OutOfBounds);
}

#[test]
fn fetch_past_memory_end_faults() {
    let mut c = Chip8::new();
    exec(&mut c, 0x1FFF); // jump to the last byte
    assert_eq!(c.exec_cycle(200), Err(Fault::OutOfBounds));
}

#[test]
fn key_test_with_register_past_keypad_faults() {
    let mut c = Chip8::new();
    c.cpu.reg[0] = 200;
    assert_eq!(exec_err(&mut c, 0xE09E), Fault::OutOfBounds);
    assert_eq!(exec_err(&mut c, 0xE0A1), Fault::OutOfBounds);
}

#[test]
fn shift_right_keeps_low_bit_in_flag() {
    let mut c = Chip8::new();
    c.cpu.reg[0] = 5;
    exec(&mut c, 0x8006);
    assert_eq!(c.cpu.reg[0xF], 1);
    assert_eq!(c.cpu.reg[0], 2);
}

#[test]
fn shift_left_keeps_top_bit_in_flag() {
    let mut c = Chip8::new();
    c.cpu.reg[0] = 0x81;
    exec(&mut c, 0x800E);
    assert_eq!(c.cpu.reg[0xF], 1);
    assert_eq!(c.cpu.reg[0], 0x02);
}

#[test]
fn bitwise_ops_combine_registers() {
    let mut c = Chip8::new();
    c.cpu.reg[0] = 0b1100;
    c.cpu.reg[1] = 0b1010;
    exec(&mut c, 0x8011);
    assert_eq!(c.cpu.reg[0], 0b1110); // OR
    c.cpu.reg[0] = 0b1100;
    exec(&mut c, 0x8012);
    assert_eq!(c.cpu.reg[0], 0b1000); // AND
    c.cpu.reg[0] = 0b1100;
    exec(&mut c, 0x8013);
    assert_eq!(c.cpu.reg[0], 0b0110); // XOR
}

#[test]
fn skips_advance_by_four_when_taken() {
    let mut c = Chip8::new();
    c.cpu.reg[0] = 7;
    exec(&mut c, 0x3007); // equal: skip
    assert_eq!(c.cpu.pc, 0x204);
    exec(&mut c, 0x3008); // not equal: no skip
    assert_eq!(c.cpu.pc, 0x206);
    exec(&mut c, 0x4008); // not equal: skip
    assert_eq!(c.cpu.pc, 0x20A);
    c.cpu.reg[1] = 7;
    exec(&mut c, 0x5010); // V0 == V1: skip
    assert_eq!(c.cpu.pc, 0x20E);
    exec(&mut c, 0x9010); // V0 != V1 is false: no skip
    assert_eq!(c.cpu.pc, 0x210);
}

#[test]
fn key_skips_follow_key_state() {
    let mut c = Chip8::new();
    c.cpu.reg[0] = 4;
    c.bus.keyboard.set_key(4, true);
    exec(&mut c, 0xE09E); // key 4 pressed: skip
    assert_eq!(c.cpu.pc, 0x204);
    exec(&mut c, 0xE0A1); // "not pressed" fails: no skip
    assert_eq!(c.cpu.pc, 0x206);
    c.bus.keyboard.set_key(4, false);
    exec(&mut c, 0xE0A1);
    assert_eq!(c.cpu.pc, 0x20A);
}

#[test]
fn font_address_is_five_bytes_per_glyph() {
    let mut c = Chip8::new();
    c.cpu.reg[0] = 0xA;
    exec(&mut c, 0xF029);
    assert_eq!(c.cpu.get_i(), 50);
}

#[test]
fn index_arithmetic_adds_register() {
    let mut c = Chip8::new();
    exec(&mut c, 0xA123);
    assert_eq!(c.cpu.get_i(), 0x123);
    c.cpu.reg[0] = 0xFF;
    exec(&mut c, 0xF01E);
    assert_eq!(c.cpu.get_i(), 0x222);
}

#[test]
fn jump_with_offset_adds_v0() {
    let mut c = Chip8::new();
    c.cpu.reg[0] = 4;
    exec(&mut c, 0xB300);
    assert_eq!(c.cpu.pc, 0x304);
}

#[test]
fn timer_reads_and_writes_move_whole_bytes() {
    let mut c = Chip8::new();
    c.cpu.reg[0] = 42;
    exec(&mut c, 0xF015); // delay = V0
    assert_eq!(c.cpu.dt, 42);
    exec(&mut c, 0xF018); // sound = V0
    assert_eq!(c.cpu.st, 42);
    exec(&mut c, 0xF107); // V1 = delay
    assert_eq!(c.cpu.reg[1], 42);
}

#[test]
fn store_and_load_registers_round_trip() {
    let mut c = Chip8::new();
    c.cpu.reg[0] = 11;
    c.cpu.reg[1] = 22;
    c.cpu.reg[2] = 33;
    exec(&mut c, 0xA300);
    exec(&mut c, 0xF255); // store V0..V2 at 0x300..0x302
    assert_eq!(c.bus.ram.read_byte(0x300), 11);
    assert_eq!(c.bus.ram.read_byte(0x301), 22);
    assert_eq!(c.bus.ram.read_byte(0x302), 33);
    assert_eq!(c.cpu.get_i(), 0x300); // the index register does not advance
    exec(&mut c, 0x6000);
    exec(&mut c, 0x6100);
    exec(&mut c, 0x6200);
    exec(&mut c, 0xF265); // load them back
    assert_eq!(c.cpu.reg[0], 11);
    assert_eq!(c.cpu.reg[1], 22);
    assert_eq!(c.cpu.reg[2], 33);
}

#[test]
fn random_byte_is_masked() {
    let mut c = Chip8::new();
    c.cpu.reg[0] = 0xAB;
    exec(&mut c, 0xC000); // mask 0x00: the register must become 0
    assert_eq!(c.cpu.reg[0], 0);
    for _ in 0..32 {
        exec(&mut c, 0xC00F); // mask 0x0F: only the low nibble survives
        assert!(c.cpu.reg[0] < 16);
    }
}

#[test]
fn clear_screen_darkens_everything_and_requests_redraw() {
    let mut c = Chip8::new();
    c.load_mem(&vec![0xFF], 0x300);
    exec(&mut c, 0xA300);
    exec(&mut c, 0xD011);
    assert!(c.bus.display.req_draw);
    c.bus.display.req_draw = false;
    exec(&mut c, 0x00E0);
    assert!(c.bus.display.req_draw);
    for x in 0..64 {
        for y in 0..32 {
            assert!(!c.bus.display.get_pixel(x, y));
        }
    }
}

#[test]
fn pacing_waits_out_the_instruction_cost() {
    let mut c = Chip8::new();
    c.load_mem(&vec![0x60, 0x05, 0x61, 0x06], 0x200);
    c.exec_cycle(1).expect("cycle"); // V0 = 5, cost 27 microseconds
    assert_eq!(c.cpu.pc, 0x202);
    c.exec_cycle(20).expect("cycle"); // only 19 elapsed: nothing runs
    assert_eq!(c.cpu.pc, 0x202);
    assert_eq!(c.cpu.reg[1], 0);
    c.exec_cycle(100).expect("cycle");
    assert_eq!(c.cpu.pc, 0x204);
    assert_eq!(c.cpu.reg[1], 6);
}

#[test]
fn load_mem_copies_bytes_verbatim() {
    let mut c = Chip8::new();
    c.load_mem(&vec![1, 2, 3, 4], 0x10);
    assert_eq!(c.bus.ram.read_byte(0x0F), 0);
    assert_eq!(c.bus.ram.read_byte(0x10), 1);
    assert_eq!(c.bus.ram.read_byte(0x13), 4);
    assert_eq!(c.bus.ram.read_byte(0x14), 0);
}

#[test]
fn rendered_frame_scales_pixels_tenfold() {
    let mut d = Display::new();
    d.set_pixel(0, 0, true);
    let mut frame = vec![0u8; 819200];
    chip8::display::draw(&mut frame, &d);
    // Pixel (0, 0) is lit: the top-left 10x10 block is white.
    assert_eq!(&frame[0..4], &[0xFF, 0xFF, 0xFF, 0xFF]);
    assert_eq!(&frame[4 * 9..4 * 9 + 4], &[0xFF, 0xFF, 0xFF, 0xFF]);
    // The block to its right is dark, with opaque alpha.
    assert_eq!(&frame[4 * 10..4 * 10 + 4], &[0x00, 0x00, 0x00, 0xFF]);
}
