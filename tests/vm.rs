use chip8_vm::state::{ExecState, VmError, PROGRAM_START};
use chip8_vm::vm::Vm;

fn program(words: &[u16]) -> Vec<u8> {
    let mut bytes = Vec::new();
    for w in words {
        bytes.push((w >> 8) as u8);
        bytes.push((w & 0xFF) as u8);
    }
    bytes
}

fn machine(words: &[u16]) -> Vm {
    let mut vm = Vm::new();
    assert_eq!(vm.load(program(words)), Ok(()));
    vm
}

fn run(vm: &mut Vm, steps: usize) {
    for _ in 0..steps {
        assert_eq!(vm.tick_with(0), Ok(ExecState::Running));
    }
}

#[test]
fn new_machine_state() {
    let vm = Vm::new();
    assert_eq!(vm.pc(), 0x200);
    assert_eq!(vm.index(), 0);
    assert_eq!(vm.delay_timer(), 0);
    assert_eq!(vm.sound_timer(), 0);
    for x in 0..16 {
        assert_eq!(vm.reg(x), 0);
    }
    assert_eq!(vm.screen().len(), 2048);
    assert!(vm.screen().iter().all(|&c| c == 0));
    assert!(vm.draw_flag());
    assert_eq!(vm.mem(0), 0xF0);
    assert_eq!(vm.mem(5), 0x20);
    assert_eq!(vm.mem(79), 0x80);
    assert_eq!(vm.mem(80), 0);
}

#[test]
fn load_copies_program() {
    let vm = machine(&[0x1234, 0xABCD]);
    assert_eq!(vm.mem(0x200), 0x12);
    assert_eq!(vm.mem(0x201), 0x34);
    assert_eq!(vm.mem(0x202), 0xAB);
    assert_eq!(vm.mem(0x203), 0xCD);
}

#[test]
fn load_largest_program_fits() {
    let mut vm = Vm::new();
    let image = vec![0x11u8; 4096 - 0x200];
    assert_eq!(vm.load(image), Ok(()));
    assert_eq!(vm.mem(4095), 0x11);
}

#[test]
fn load_too_large_is_refused() {
    let mut vm = Vm::new();
    let image = vec![0x11u8; 4096 - 0x200 + 1];
    assert_eq!(vm.load(image), Err(VmError::ProgramTooLarge { len: 3585 }));
    assert_eq!(vm.mem(0x200), 0);
}

#[test]
fn set_immediate_reads_back() {
    for x in 0..16u16 {
        let mut vm = machine(&[0x6000 | (x << 8) | 0xA7]);
        run(&mut vm, 1);
        assert_eq!(vm.reg(x as usize), 0xA7);
        assert_eq!(vm.pc(), 0x202);
    }
}

#[test]
fn skip_if_equal_immediate() {
    let mut vm = machine(&[0x6505, 0x3505]);
    run(&mut vm, 2);
    assert_eq!(vm.pc(), 0x202 + 4);
    let mut vm = machine(&[0x6505, 0x3506]);
    run(&mut vm, 2);
    assert_eq!(vm.pc(), 0x202 + 2);
}

#[test]
fn skip_variants() {
    let mut vm = machine(&[0x6505, 0x4506]);
    run(&mut vm, 2);
    assert_eq!(vm.pc(), 0x206);
    let mut vm = machine(&[0x6505, 0x6605, 0x5560]);
    run(&mut vm, 3);
    assert_eq!(vm.pc(), 0x208);
    let mut vm = machine(&[0x6505, 0x6605, 0x9560]);
    run(&mut vm, 3);
    assert_eq!(vm.pc(), 0x206);
}

#[test]
fn add_overflow_sets_flag() {
    let mut vm = machine(&[0x61FF, 0x6201, 0x8124]);
    run(&mut vm, 3);
    assert_eq!(vm.reg(1), 0x00);
    assert_eq!(vm.reg(15), 1);
}

#[test]
fn add_without_carry_clears_flag() {
    let mut vm = machine(&[0x6F01, 0x6110, 0x6220, 0x8124]);
    run(&mut vm, 4);
    assert_eq!(vm.reg(1), 0x30);
    assert_eq!(vm.reg(15), 0);
}

#[test]
fn sub_borrow_polarity() {
    let mut vm = machine(&[0x6101, 0x6202, 0x8125]);
    run(&mut vm, 3);
    assert_eq!(vm.reg(1), 0xFF);
    assert_eq!(vm.reg(15), 0);
    let mut vm = machine(&[0x6105, 0x6202, 0x8125]);
    run(&mut vm, 3);
    assert_eq!(vm.reg(1), 3);
    assert_eq!(vm.reg(15), 1);
}

#[test]
fn reverse_sub() {
    let mut vm = machine(&[0x6105, 0x6202, 0x8127]);
    run(&mut vm, 3);
    assert_eq!(vm.reg(1), 0xFD);
    assert_eq!(vm.reg(15), 0);
}

#[test]
fn bitwise_and_shifts() {
    let mut vm = machine(&[0x61F0, 0x623C, 0x8321, 0x8312, 0x8413, 0x8420]);
    run(&mut vm, 4);
    assert_eq!(vm.reg(3), 0xF0 & 0x3C);
    let mut vm = machine(&[0x61F0, 0x623C, 0x8121, 0x8322, 0x8320, 0x8323]);
    run(&mut vm, 3);
    assert_eq!(vm.reg(1), 0xFC);
    let mut vm = machine(&[0x6185, 0x8106]);
    run(&mut vm, 2);
    assert_eq!(vm.reg(1), 0x42);
    assert_eq!(vm.reg(15), 1);
    let mut vm = machine(&[0x6185, 0x810E]);
    run(&mut vm, 2);
    assert_eq!(vm.reg(1), 0x0A);
    assert_eq!(vm.reg(15), 1);
    let mut vm = machine(&[0x61F0, 0x623C, 0x8123]);
    run(&mut vm, 3);
    assert_eq!(vm.reg(1), 0xCC);
}

#[test]
fn add_immediate_wraps_without_flag() {
    let mut vm = machine(&[0x61FF, 0x7102]);
    run(&mut vm, 2);
    assert_eq!(vm.reg(1), 1);
    assert_eq!(vm.reg(15), 0);
}

#[test]
fn copy_register() {
    let mut vm = machine(&[0x6277, 0x8120]);
    run(&mut vm, 2);
    assert_eq!(vm.reg(1), 0x77);
}

#[test]
fn jumps_and_calls() {
    let mut vm = machine(&[0x1208]);
    run(&mut vm, 1);
    assert_eq!(vm.pc(), 0x208);
    let mut vm = machine(&[0x6004, 0xB300]);
    run(&mut vm, 2);
    assert_eq!(vm.pc(), 0x304);
    let mut vm = machine(&[0x2206, 0x0000, 0x0000, 0x00EE]);
    run(&mut vm, 1);
    assert_eq!(vm.pc(), 0x206);
    run(&mut vm, 1);
    assert_eq!(vm.pc(), 0x202);
}

#[test]
fn random_uses_injected_byte() {
    let mut vm = machine(&[0xC10F]);
    assert_eq!(vm.tick_with(0xAB), Ok(ExecState::Running));
    assert_eq!(vm.reg(1), 0x0B);
    let mut vm = machine(&[0xC1F0]);
    assert_eq!(vm.tick(), Ok(ExecState::Running));
    assert_eq!(vm.reg(1) & 0x0F, 0);
}

#[test]
fn sprite_draw_twice_restores() {
    // glyph of 0 at (3, 2), drawn twice
    let mut vm = machine(&[0x6003, 0x6102, 0xA000, 0xD015, 0xD015]);
    run(&mut vm, 4);
    assert!(vm.draw_flag());
    assert_eq!(vm.reg(15), 0);
    let screen: Vec<u8> = vm.screen().to_vec();
    assert_eq!(screen[2 * 64 + 3], 1);
    assert_eq!(screen[2 * 64 + 7], 0);
    assert_eq!(screen[3 * 64 + 3], 1);
    assert_eq!(screen[3 * 64 + 4], 0);
    assert_eq!(screen.iter().filter(|&&c| c == 1).count(), 14);
    run(&mut vm, 1);
    assert_eq!(vm.reg(15), 1);
    assert!(vm.screen().iter().all(|&c| c == 0));
    assert_eq!(vm.index(), 0);
}

#[test]
fn clear_screen() {
    let mut vm = machine(&[0xA000, 0xD015, 0x00E0]);
    run(&mut vm, 2);
    run(&mut vm, 1);
    assert!(vm.screen().iter().all(|&c| c == 0));
    assert!(vm.draw_flag());
    assert_eq!(vm.pc(), 0x206);
}

#[test]
fn redraw_flag_cleared_by_step() {
    let mut vm = machine(&[0x6001]);
    assert!(vm.draw_flag());
    run(&mut vm, 1);
    assert!(!vm.draw_flag());
}

#[test]
fn register_dump_and_load() {
    // V0..V2 = 1, 2, 3; dump at 0x300, reset I, clear the registers, load back
    let mut vm = machine(&[0x6001, 0x6102, 0x6203, 0xA300, 0xF255, 0xA300, 0x6000, 0x6100, 0x6200, 0xF265]);
    run(&mut vm, 5);
    assert_eq!(vm.index(), 0x303);
    assert_eq!(vm.mem(0x300), 1);
    assert_eq!(vm.mem(0x301), 2);
    assert_eq!(vm.mem(0x302), 3);
    run(&mut vm, 5);
    assert_eq!(vm.reg(0), 1);
    assert_eq!(vm.reg(1), 2);
    assert_eq!(vm.reg(2), 3);
    assert_eq!(vm.index(), 0x303);
}

#[test]
fn bcd_digits() {
    let mut vm = machine(&[0x61FE, 0xA300, 0xF133]);
    run(&mut vm, 3);
    assert_eq!(vm.mem(0x300), 2);
    assert_eq!(vm.mem(0x301), 5);
    assert_eq!(vm.mem(0x302), 4);
}

#[test]
fn index_add_and_font() {
    let mut vm = machine(&[0xAFFF, 0x6102, 0xF11E]);
    run(&mut vm, 3);
    assert_eq!(vm.index(), 0x1001);
    assert_eq!(vm.reg(15), 1);
    let mut vm = machine(&[0xA100, 0x6102, 0xF11E]);
    run(&mut vm, 3);
    assert_eq!(vm.index(), 0x102);
    assert_eq!(vm.reg(15), 0);
    let mut vm = machine(&[0x611B, 0xF129]);
    run(&mut vm, 2);
    assert_eq!(vm.index(), 55);
}

#[test]
fn timers() {
    let mut vm = machine(&[0x6103, 0xF115, 0xF118, 0xF207]);
    run(&mut vm, 3);
    assert_eq!(vm.delay_timer(), 3);
    assert_eq!(vm.sound_timer(), 3);
    vm.update_timers();
    run(&mut vm, 1);
    assert_eq!(vm.reg(2), 2);
}

#[test]
fn timer_floor_at_zero() {
    let mut vm = Vm::new();
    for _ in 0..300 {
        vm.update_timers();
        assert_eq!(vm.delay_timer(), 0);
        assert_eq!(vm.sound_timer(), 0);
    }
}

#[test]
fn key_wait_blocks_until_pressed() {
    let mut vm = machine(&[0xF30A]);
    assert_eq!(vm.tick_with(0), Ok(ExecState::AwaitingKeyInput));
    assert_eq!(vm.pc(), 0x200);
    assert_eq!(vm.tick_with(0), Ok(ExecState::AwaitingKeyInput));
    assert_eq!(vm.pc(), 0x200);
    vm.key_down(9);
    vm.key_down(12);
    assert_eq!(vm.tick_with(0), Ok(ExecState::Running));
    assert_eq!(vm.pc(), 0x202);
    assert_eq!(vm.reg(3), 9);
}

#[test]
fn key_skips() {
    let mut vm = machine(&[0x6107, 0xE19E]);
    vm.key_down(7);
    run(&mut vm, 2);
    assert_eq!(vm.pc(), 0x206);
    let mut vm = machine(&[0x6107, 0xE19E]);
    vm.key_down(7);
    vm.key_up(7);
    run(&mut vm, 2);
    assert_eq!(vm.pc(), 0x204);
    let mut vm = machine(&[0x6107, 0xE1A1]);
    run(&mut vm, 2);
    assert_eq!(vm.pc(), 0x206);
}

#[test]
fn end_to_end_add_program() {
    let mut vm = machine(&[0x6005, 0x6103, 0x8014]);
    run(&mut vm, 3);
    assert_eq!(vm.reg(0), 8);
    assert_eq!(vm.reg(15), 0);
    assert_eq!(vm.pc(), PROGRAM_START + 6);
}

#[test]
fn invalid_opcode_is_reported() {
    let mut vm = machine(&[0x6001, 0x8128]);
    run(&mut vm, 1);
    assert_eq!(vm.tick_with(0), Err(VmError::InvalidOpcode { opcode: 0x8128, pc: 0x202 }));
    assert_eq!(vm.pc(), 0x202);
    let mut vm = machine(&[0xE1FF]);
    assert_eq!(vm.tick_with(0), Err(VmError::InvalidOpcode { opcode: 0xE1FF, pc: 0x200 }));
    let mut vm = machine(&[0xF1FF]);
    assert_eq!(vm.tick_with(0), Err(VmError::InvalidOpcode { opcode: 0xF1FF, pc: 0x200 }));
    let mut vm = machine(&[0x0123]);
    assert_eq!(vm.tick_with(0), Err(VmError::InvalidOpcode { opcode: 0x0123, pc: 0x200 }));
}

#[test]
fn stack_faults() {
    let mut vm = machine(&[0x00EE]);
    assert_eq!(vm.tick_with(0), Err(VmError::StackUnderflow { pc: 0x200 }));
    let mut vm = machine(&[0x2200]);
    for _ in 0..16 {
        assert_eq!(vm.tick_with(0), Ok(ExecState::Running));
    }
    assert_eq!(vm.tick_with(0), Err(VmError::StackOverflow { pc: 0x200 }));
}

#[test]
fn memory_faults() {
    let mut vm = machine(&[0x1FFF]);
    run(&mut vm, 1);
    assert_eq!(vm.tick_with(0), Err(VmError::MemoryFault { pc: 0xFFF, addr: 0xFFF }));
    let mut vm = machine(&[0xAFFE, 0xF133]);
    run(&mut vm, 1);
    assert_eq!(vm.tick_with(0), Err(VmError::MemoryFault { pc: 0x202, addr: 0xFFE }));
    let mut vm = machine(&[0xAFFE, 0xF255]);
    run(&mut vm, 1);
    assert_eq!(vm.tick_with(0), Err(VmError::MemoryFault { pc: 0x202, addr: 0xFFE }));
    let mut vm = machine(&[0xAFFE, 0xF265]);
    run(&mut vm, 1);
    assert_eq!(vm.tick_with(0), Err(VmError::MemoryFault { pc: 0x202, addr: 0xFFE }));
    let mut vm = machine(&[0xAFFE, 0xD005]);
    run(&mut vm, 1);
    assert_eq!(vm.tick_with(0), Err(VmError::MemoryFault { pc: 0x202, addr: 0xFFE }));
}

#[test]
fn sprite_off_screen_is_reported() {
    // glyph of 0 drawn at row 30: its third row falls below the framebuffer
    let mut vm = machine(&[0x6000, 0x611E, 0xA000, 0xD015]);
    run(&mut vm, 3);
    assert_eq!(vm.tick_with(0), Err(VmError::DisplayFault { pc: 0x206 }));
    assert!(vm.screen().iter().all(|&c| c == 0));
    assert_eq!(vm.pc(), 0x206);
}

#[test]
fn bad_key_is_reported() {
    let mut vm = machine(&[0x6110, 0xE19E]);
    run(&mut vm, 1);
    assert_eq!(vm.tick_with(0), Err(VmError::InvalidKey { pc: 0x202, key: 0x10 }));
}
