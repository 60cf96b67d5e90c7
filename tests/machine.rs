use chip8::instr::{decode, Instr};
use chip8::keys::{key_idx, KEY_1, KEY_4, KEY_V, KEY_X};
use chip8::machine::{AudioCommand, Flow, Vm};

/// Lays out instruction words from the program start on.
fn program(words: &[u16]) -> Vec<u8> {
    let mut bytes = Vec::new();
    for word in words {
        bytes.extend_from_slice(&word.to_be_bytes());
    }
    bytes
}

/// Runs until the machine stops on its own, at most `limit` cycles; returns
/// the machine, the final flow and how many instructions ran.
fn run(bytes: &[u8], limit: usize) -> (Vm, Flow, usize) {
    let mut vm = Vm::new(&bytes.to_vec());
    let mut count = 0;
    while count < limit {
        vm.tick_timers();
        let flow = vm.cycle(0);
        count += 1;
        if flow != Flow::Continue {
            return (vm, flow, count);
        }
    }
    (vm, Flow::Continue, count)
}

#[test]
fn jumps() {
    let mut rom = vec![0u8; 10];
    rom[0] = 0x61;
    rom[1] = 0xff;

    rom[2] = 0x62;
    rom[3] = 0xfe;

    rom[4] = 0x91;
    rom[5] = 0x20;

    rom[8] = 0x00;
    rom[9] = 0xee;

    let (vm, flow, _) = run(&rom, 100);
    assert_eq!(flow, Flow::Halt);
    assert_eq!(vm.v[1], 0xff);
    assert_eq!(vm.v[2], 0xfe);
}

#[test]
fn arithmetic() {
    let (vm, flow, count) = run(&program(&[0x1206, 0x60ff, 0x61fe, 0x9010, 0x00ee]), 100);
    assert_eq!(flow, Flow::Halt);
    // the jump, the register compare that does not skip, and the return
    assert_eq!(count, 3);
    assert_eq!(vm.v[0], 0);
    assert_eq!(vm.v[1], 0);
}

#[test]
fn collision() {
    let (vm, flow, _) = run(
        &program(&[
            0x1204, 0xffff, 0x6001, 0x6101, 0xa202, 0xd012, 0x3f00, 0x1fff, 0xd012, 0x4f00,
            0x1fff, 0x00ee,
        ]),
        100,
    );
    assert_eq!(flow, Flow::Halt);
    for y in 0..32 {
        for x in 0..64 {
            assert!(!vm.pixel(x, y));
        }
    }
}

#[test]
fn new_loads_font_and_program() {
    let vm = Vm::new(&vec![0xab, 0xcd]);
    assert_eq!(vm.memory.len(), 4096);
    assert_eq!(&vm.memory[0..5], &[0xf0, 0x90, 0x90, 0x90, 0xf0]);
    assert_eq!(&vm.memory[75..80], &[0xf0, 0x80, 0xf0, 0x80, 0x80]);
    assert_eq!(vm.memory[80], 0);
    assert_eq!(vm.memory[0x200], 0xab);
    assert_eq!(vm.memory[0x201], 0xcd);
    assert_eq!(vm.memory[0x202], 0);
    assert_eq!(vm.pc, 0x200);
    assert!(vm.stack.is_empty());
}

#[test]
fn new_cuts_long_program() {
    let vm = Vm::new(&vec![7u8; 5000]);
    assert_eq!(vm.memory.len(), 4096);
    assert_eq!(vm.memory[0xfff], 7);
}

#[test]
fn decode_families() {
    assert_eq!(decode(0x00, 0xe0), Some(Instr::Clear));
    assert_eq!(decode(0x00, 0xee), Some(Instr::Return));
    assert_eq!(decode(0x00, 0x00), None);
    assert_eq!(decode(0x1a, 0xbc), Some(Instr::Jump { addr: 0xabc }));
    assert_eq!(decode(0x51, 0x21), None);
    assert_eq!(decode(0x8a, 0xb6), Some(Instr::ShiftRight { x: 0xa }));
    assert_eq!(decode(0x81, 0x28), None);
    assert_eq!(decode(0xd1, 0x2f), Some(Instr::Draw { x: 1, y: 2, n: 15 }));
    assert_eq!(decode(0xe3, 0x9e), Some(Instr::SkipKey { x: 3 }));
    assert_eq!(decode(0xe3, 0x00), None);
    assert_eq!(decode(0xf5, 0x65), Some(Instr::LoadRegs { x: 5 }));
    assert_eq!(decode(0xf5, 0x66), None);
}

fn with_regs(a: u8, b: u8) -> Vm {
    let mut vm = Vm::new(&vec![]);
    vm.v[1] = a;
    vm.v[2] = b;
    vm
}

#[test]
fn add_sets_carry() {
    for (a, b) in [(200u8, 100u8), (1, 2), (255, 1), (128, 128), (0, 0), (255, 0)] {
        let mut vm = with_regs(a, b);
        assert_eq!(vm.execute(Instr::AddReg { x: 1, y: 2 }, 0, 0), Flow::Continue);
        assert_eq!(vm.v[1], a.wrapping_add(b));
        assert_eq!(vm.v[15], if a as u16 + b as u16 >= 256 { 1 } else { 0 });
        assert_eq!(vm.pc, 0x202);
    }
}

#[test]
fn sub_sets_not_borrow() {
    for (a, b) in [(5u8, 3u8), (3, 5), (7, 7), (0, 255)] {
        let mut vm = with_regs(a, b);
        vm.execute(Instr::SubReg { x: 1, y: 2 }, 0, 0);
        assert_eq!(vm.v[1], a.wrapping_sub(b));
        assert_eq!(vm.v[15], if a > b { 1 } else { 0 });
    }
    let mut vm = with_regs(3, 5);
    vm.execute(Instr::SubRev { x: 1, y: 2 }, 0, 0);
    assert_eq!(vm.v[1], 2);
    assert_eq!(vm.v[15], 1);
}

#[test]
fn shift_right_uses_vx_only() {
    for vy in [0u8, 0xff, 0x80] {
        let mut vm = with_regs(0b11, vy);
        let ins = decode(0x81, 0x26).unwrap();
        vm.execute(ins, 0, 0);
        assert_eq!(vm.v[1], 0b1);
        assert_eq!(vm.v[15], 1);
        assert_eq!(vm.v[2], vy);
    }
    let mut vm = with_regs(0x81, 0);
    vm.execute(Instr::ShiftLeft { x: 1 }, 0, 0);
    assert_eq!(vm.v[1], 0x02);
    assert_eq!(vm.v[15], 1);
}

#[test]
fn jump_offset_uses_v0() {
    for hi in 0xb0u8..=0xbf {
        let mut vm = Vm::new(&vec![]);
        vm.v[0] = 5;
        vm.v[(hi & 0x0f) as usize] = if hi == 0xb0 { 5 } else { 100 };
        let ins = decode(hi, 0x10).unwrap();
        vm.execute(ins, 0, 0);
        let nnn = ((hi as u16 & 0x0f) << 8) | 0x10;
        assert_eq!(vm.pc, (nnn + 5) % 4096);
    }
}

#[test]
fn draw_twice_restores_display() {
    let mut vm = Vm::new(&vec![]);
    vm.i = 0x300;
    vm.memory[0x300] = 0b1010_0000;
    vm.memory[0x301] = 0b0101_0000;
    vm.v[3] = 62;
    vm.v[4] = 31;
    vm.screen[31 * 64 + 62] = true;
    let before = vm.screen.clone();
    vm.execute(Instr::Draw { x: 3, y: 4, n: 2 }, 0, 0);
    assert_eq!(vm.v[15], 1);
    assert!(!vm.pixel(62, 31));
    assert!(vm.pixel(0, 31));
    assert!(vm.pixel(63, 0));
    assert!(vm.pixel(1, 0));
    vm.execute(Instr::Draw { x: 3, y: 4, n: 2 }, 0, 0);
    assert_eq!(vm.v[15], 1);
    assert_eq!(vm.screen, before);
}

#[test]
fn draw_scenario_full_collision() {
    let mut vm = Vm::new(&vec![]);
    vm.i = 0x300;
    vm.memory[0x300] = 0xff;
    vm.memory[0x301] = 0xff;
    vm.v[0] = 1;
    vm.v[1] = 1;
    vm.execute(Instr::Draw { x: 0, y: 1, n: 2 }, 0, 0);
    assert_eq!(vm.v[15], 0);
    for x in 1..9 {
        assert!(vm.pixel(x, 1) && vm.pixel(x, 2));
    }
    vm.execute(Instr::Draw { x: 0, y: 1, n: 2 }, 0, 0);
    assert_eq!(vm.v[15], 1);
    assert!(vm.screen.iter().all(|p| !*p));
}

#[test]
fn call_then_return_resumes_after_call() {
    let mut vm = Vm::new(&program(&[0x6001, 0x2300]));
    vm.memory[0x300] = 0x00;
    vm.memory[0x301] = 0xee;
    vm.cycle(0);
    assert_eq!(vm.pc, 0x202);
    vm.cycle(0);
    assert_eq!(vm.pc, 0x300);
    assert_eq!(vm.stack, vec![0x202]);
    assert_eq!(vm.cycle(0), Flow::Continue);
    assert_eq!(vm.pc, 0x204);
    assert!(vm.stack.is_empty());
}

#[test]
fn timers_stop_at_zero() {
    let mut vm = Vm::new(&vec![]);
    vm.tick_timers();
    assert_eq!(vm.delay_timer, 0);
    assert_eq!(vm.sound_timer, 0);
    vm.delay_timer = 2;
    vm.sound_timer = 1;
    vm.tick_timers();
    assert_eq!(vm.delay_timer, 1);
    assert_eq!(vm.sound_timer, 0);
    vm.tick_timers();
    vm.tick_timers();
    assert_eq!(vm.delay_timer, 0);
    assert_eq!(vm.sound_timer, 0);
}

#[test]
fn sound_timer_records_start() {
    let mut vm = with_regs(30, 0);
    vm.execute(Instr::SetSound { x: 1 }, 0, 1234);
    assert_eq!(vm.sound_timer, 30);
    assert_eq!(vm.sound_start, 1234);
    assert_eq!(vm.audio_command(true, 1234), AudioCommand::Play);
    assert_eq!(vm.audio_command(false, 1234), AudioCommand::Keep);
    vm.sound_timer = 0;
    assert_eq!(vm.audio_command(false, 1260), AudioCommand::Keep);
    assert_eq!(vm.audio_command(false, 1284), AudioCommand::Pause);
    assert_eq!(vm.audio_command(true, 1300), AudioCommand::Keep);
}

#[test]
fn key_events_and_skips() {
    let mut vm = with_regs(0xc, 0);
    vm.key_event(0xc, true);
    vm.key_event(40, true);
    assert!(vm.keys[0xc]);
    vm.execute(Instr::SkipKey { x: 1 }, 0, 0);
    assert_eq!(vm.pc, 0x204);
    vm.execute(Instr::SkipNoKey { x: 1 }, 0, 0);
    assert_eq!(vm.pc, 0x206);
    vm.key_event(0xc, false);
    vm.execute(Instr::SkipNoKey { x: 1 }, 0, 0);
    assert_eq!(vm.pc, 0x20a);
    vm.v[1] = 200;
    vm.execute(Instr::SkipKey { x: 1 }, 0, 0);
    assert_eq!(vm.pc, 0x20c);
}

#[test]
fn wait_for_key_press() {
    let mut vm = Vm::new(&program(&[0xf30a]));
    vm.keys[5] = true;
    let flow = vm.cycle(0);
    assert_eq!(flow, Flow::AwaitKey { x: 3 });
    assert_eq!(vm.pc, 0x200);
    assert!(!vm.wait_event(3, 5, false));
    assert!(!vm.keys[5]);
    assert!(!vm.wait_event(3, 99, true));
    assert!(vm.wait_event(3, 7, true));
    assert!(vm.keys[7]);
    assert_eq!(vm.v[3], 7);
    assert_eq!(vm.pc, 0x202);
}

#[test]
fn bcd_and_register_transfer() {
    let mut vm = with_regs(254, 9);
    vm.i = 0x400;
    vm.execute(Instr::Bcd { x: 1 }, 0, 0);
    assert_eq!(&vm.memory[0x400..0x403], &[2, 5, 4]);
    vm.v[0] = 11;
    vm.execute(Instr::StoreRegs { x: 2 }, 0, 0);
    assert_eq!(&vm.memory[0x400..0x404], &[11, 254, 9, 0]);
    vm.i = 0xfff;
    vm.execute(Instr::StoreRegs { x: 1 }, 0, 0);
    assert_eq!(vm.memory[0xfff], 11);
    assert_eq!(vm.memory[0], 254);
    let mut other = Vm::new(&vec![]);
    other.i = 0x400;
    other.memory[0x400..0x403].copy_from_slice(&[1, 2, 3]);
    other.v[3] = 77;
    other.execute(Instr::LoadRegs { x: 2 }, 0, 0);
    assert_eq!(&other.v[0..4], &[1, 2, 3, 77]);
}

#[test]
fn index_and_font_address() {
    let mut vm = with_regs(0xa, 0);
    vm.execute(Instr::FontChar { x: 1 }, 0, 0);
    assert_eq!(vm.i, 50);
    vm.i = 0xffff;
    vm.execute(Instr::AddIndex { x: 1 }, 0, 0);
    assert_eq!(vm.i, 9);
}

#[test]
fn random_masks_the_byte() {
    let mut vm = with_regs(0, 0);
    vm.execute(Instr::Random { x: 1, nn: 0x0f }, 0xab, 0);
    assert_eq!(vm.v[1], 0x0b);
    let mut vm = Vm::new(&program(&[0xc100]));
    vm.cycle(0);
    assert_eq!(vm.v[1], 0);
}

#[test]
fn illegal_word_stops() {
    let (vm, flow, count) = run(&program(&[0x6005, 0x8008]), 10);
    assert_eq!(flow, Flow::Illegal { hi: 0x80, lo: 0x08 });
    assert_eq!(count, 2);
    assert_eq!(vm.pc, 0x202);
}

#[test]
fn clear_blanks_display() {
    let mut vm = Vm::new(&program(&[0x00e0]));
    vm.screen[100] = true;
    vm.cycle(0);
    assert!(vm.screen.iter().all(|p| !*p));
    assert_eq!(vm.pc, 0x202);
}

#[test]
fn key_layout() {
    assert_eq!(key_idx(KEY_1), Some(0x1));
    assert_eq!(key_idx(KEY_4), Some(0xc));
    assert_eq!(key_idx(KEY_X), Some(0x0));
    assert_eq!(key_idx(KEY_V), Some(0xf));
    assert_eq!(key_idx(1), None);
}
