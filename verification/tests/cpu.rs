use chip8::cpu::Cpu;
use chip8::cpu::Fault;
use chip8::graphics::TestDisplay;
use chip8::input::TestKeyboard;
use chip8::interconnect::Interconnect;

fn get_cpu() -> Cpu<TestKeyboard, TestDisplay> {
    let rom = vec![0_u8; 10];
    let interconnect = Interconnect::new_test(rom);
    let mut cpu = Cpu::new(interconnect);
    // these register-level checks address everything relative to a zero
    // program counter
    cpu.pc = 0;
    cpu
}

#[test]
fn opcode_jp() {
    let mut cpu = get_cpu();
    cpu.process_opcode(0x1A2A);
    assert_eq!(cpu.pc, 0x0A2A, "the program counter is updated");
}

#[test]
fn opcode_call() {
    let mut cpu = get_cpu();
    let addr = 0x23;
    cpu.pc = addr;

    cpu.process_opcode(0x2ABC);

    assert_eq!(cpu.pc, 0x0ABC, "the program counter is updated to the new address");
    assert_eq!(cpu.sp, 1, "the stack pointer is incremented");
    assert_eq!(cpu.stack[0], addr + 2, "the stack stores the previous address");
}

#[test]
fn opcode_se_vx_byte() {
    let mut cpu = get_cpu();
    cpu.v[1] = 0xFE;

    // vx == kk
    cpu.process_opcode(0x31FE);
    assert_eq!(cpu.pc, 4, "the stack pointer skips");

    // vx != kk
    cpu.process_opcode(0x31FA);
    assert_eq!(cpu.pc, 6, "the stack pointer is incremented");
}

#[test]
fn opcode_sne_vx_byte() {
    let mut cpu = get_cpu();
    cpu.v[1] = 0xFE;

    // vx == kk
    cpu.process_opcode(0x41FE);
    assert_eq!(cpu.pc, 2, "the stack pointer is incremented");

    // vx != kk
    cpu.process_opcode(0x41FA);
    assert_eq!(cpu.pc, 6, "the stack pointer skips");
}

#[test]
fn opcode_se_vx_vy() {
    let mut cpu = get_cpu();
    cpu.v[1] = 1;
    cpu.v[2] = 3;
    cpu.v[3] = 3;

    // vx == vy
    cpu.process_opcode(0x5230);
    assert_eq!(cpu.pc, 4, "the stack pointer skips");

    // vx != vy
    cpu.process_opcode(0x5130);
    assert_eq!(cpu.pc, 6, "the stack pointer is incremented");
}

#[test]
fn opcode_sne_vx_vy() {
    let mut cpu = get_cpu();
    cpu.v[1] = 1;
    cpu.v[2] = 3;
    cpu.v[3] = 3;

    // vx == vy
    cpu.process_opcode(0x9230);
    assert_eq!(cpu.pc, 2, "the stack pointer is incremented");

    // vx != vy
    cpu.process_opcode(0x9130);
    assert_eq!(cpu.pc, 6, "the stack pointer skips");
}

#[test]
fn opcode_add_vx_kkk() {
    let mut cpu = get_cpu();
    cpu.v[1] = 3;

    cpu.process_opcode(0x7101);
    assert_eq!(cpu.v[1], 4, "Vx was incremented by one");
}

#[test]
fn opcode_ld_vx_vy() {
    let mut cpu = get_cpu();
    cpu.v[1] = 3;
    cpu.v[0] = 0;

    cpu.process_opcode(0x8010);
    assert_eq!(cpu.v[0], 3, "Vx was loaded with vy");
}

#[test]
fn opcode_or_vx_vy() {
    let mut cpu = get_cpu();
    cpu.v[2] = 0b01101100;
    cpu.v[3] = 0b11001110;

    cpu.process_opcode(0x8231);
    assert_eq!(cpu.v[2], 0b11101110, "Vx was loaded with vx OR vy");
}

#[test]
fn opcode_and_vx_vy() {
    let mut cpu = get_cpu();
    cpu.v[2] = 0b01101100;
    cpu.v[3] = 0b11001110;

    cpu.process_opcode(0x8232);
    assert_eq!(cpu.v[2], 0b01001100, "Vx was loaded with vx AND vy");
}

#[test]
fn opcode_xor_vx_vy() {
    let mut cpu = get_cpu();
    cpu.v[2] = 0b01101100;
    cpu.v[3] = 0b11001110;

    cpu.process_opcode(0x8233);
    assert_eq!(cpu.v[2], 0b10100010, "Vx was loaded with vx XOR vy");
}

#[test]
fn opcode_add_vx_vy() {
    let mut cpu = get_cpu();
    cpu.v[1] = 10;
    cpu.v[2] = 100;
    cpu.v[3] = 250;

    cpu.process_opcode(0x8124);
    assert_eq!(cpu.v[1], 110, "Vx was loaded with vx + vy");
    assert_eq!(cpu.v[0xF], 0, "no overflow occured");

    cpu.process_opcode(0x8134);
    assert_eq!(cpu.v[1], 0x68, "Vx was loaded with vx + vy");
    assert_eq!(cpu.v[0xF], 1, "overflow occured");
}

#[test]
fn opcode_ld_i_vx() {
    let mut cpu = get_cpu();
    cpu.v[0] = 5;
    cpu.v[1] = 4;
    cpu.v[2] = 3;
    cpu.v[3] = 2;
    cpu.i = 0x300;

    // load v0 - v2 into memory at i
    cpu.process_opcode(0xF255);
    assert_eq!(cpu.interconnect.memory.read(cpu.i as usize), 5, "V0 was loaded into memory at i");
    assert_eq!(cpu.interconnect.memory.read(cpu.i as usize + 1), 4, "V1 was loaded into memory at i + 1");
    assert_eq!(cpu.interconnect.memory.read(cpu.i as usize + 2), 3, "V2 was loaded into memory at i + 2");
    assert_eq!(cpu.interconnect.memory.read(cpu.i as usize + 3), 0, "i + 3 was not loaded");
}

#[test]
fn opcode_ld_b_vx() {
    let mut cpu = get_cpu();
    cpu.i = 0x300;
    cpu.v[2] = 234;

    // store the decimal digits of v2 at i
    cpu.process_opcode(0xF233);
    assert_eq!(cpu.interconnect.memory.read(cpu.i as usize), 2, "hundreds");
    assert_eq!(cpu.interconnect.memory.read(cpu.i as usize + 1), 3, "tens");
    assert_eq!(cpu.interconnect.memory.read(cpu.i as usize + 2), 4, "digits");
}

#[test]
fn opcode_ld_vx_i() {
    let mut cpu = get_cpu();
    cpu.i = 0x300;
    cpu.interconnect.memory.write(cpu.i as usize, 5);
    cpu.interconnect.memory.write(cpu.i as usize + 1, 4);
    cpu.interconnect.memory.write(cpu.i as usize + 2, 3);
    cpu.interconnect.memory.write(cpu.i as usize + 3, 2);

    // load v0 - v2 from memory at i
    cpu.process_opcode(0xF265);
    assert_eq!(cpu.v[0], 5, "V0 was loaded from memory at i");
    assert_eq!(cpu.v[1], 4, "V1 was loaded from memory at i + 1");
    assert_eq!(cpu.v[2], 3, "V2 was loaded from memory at i + 2");
    assert_eq!(cpu.v[3], 0, "i + 3 was not loaded");
}

#[test]
fn opcode_ret() {
    let mut cpu = get_cpu();
    let addr = 0x23;
    cpu.pc = addr;

    // jump to 0x0ABC
    cpu.process_opcode(0x2ABC);
    // return
    cpu.process_opcode(0x00EE);

    assert_eq!(cpu.pc, 0x25, "the program counter is updated to the new address");
    assert_eq!(cpu.sp, 0, "the stack pointer is decremented");
}

#[test]
fn opcode_ld_i_addr() {
    let mut cpu = get_cpu();

    cpu.process_opcode(0x61AA);
    assert_eq!(cpu.v[1], 0xAA, "V1 is set");
    assert_eq!(cpu.pc, 2, "the program counter is advanced two bytes");

    cpu.process_opcode(0x621A);
    assert_eq!(cpu.v[2], 0x1A, "V2 is set");
    assert_eq!(cpu.pc, 4, "the program counter is advanced two bytes");

    cpu.process_opcode(0x6A15);
    assert_eq!(cpu.v[10], 0x15, "V10 is set");
    assert_eq!(cpu.pc, 6, "the program counter is advanced two bytes");
}

#[test]
fn opcode_axxx() {
    let mut cpu = get_cpu();
    cpu.process_opcode(0xAFAF);

    assert_eq!(cpu.i, 0x0FAF, "the 'i' register is updated");
    assert_eq!(cpu.pc, 2, "the program counter is advanced two bytes");
}

#[test]
fn unknown_opcodes_are_no_ops() {
    let mut cpu = get_cpu();
    cpu.v[1] = 3;
    cpu.v[2] = 3;

    // a skip-shaped pattern with a nonzero last nibble matches nothing
    cpu.process_opcode(0x5123);
    assert_eq!(cpu.pc, 2, "5xyn with n != 0 only advances the program counter");
    cpu.process_opcode(0x9123);
    assert_eq!(cpu.pc, 4, "9xyn with n != 0 only advances the program counter");

    cpu.process_opcode(0x0000);
    assert_eq!(cpu.pc, 6);
    cpu.process_opcode(0x8128);
    assert_eq!(cpu.pc, 8);
    cpu.process_opcode(0xF199);
    assert_eq!(cpu.pc, 10);

    assert_eq!(cpu.v[1], 3, "registers are untouched");
    assert_eq!(cpu.v[2], 3, "registers are untouched");
    assert_eq!(cpu.v[0xF], 0, "the flags register is untouched");
    assert_eq!(cpu.i, 0);
    assert_eq!(cpu.sp, 0);
}

#[test]
fn opcode_sub_vx_vy() {
    let mut cpu = get_cpu();
    cpu.v[1] = 10;
    cpu.v[2] = 100;

    // a larger vy wraps into the unsigned range and raises the flag
    cpu.process_opcode(0x8125);
    assert_eq!(cpu.v[1], 166, "Vx wrapped into the unsigned 8-bit range");
    assert_eq!(cpu.v[0xF], 1, "the borrow flag is raised");

    cpu.v[3] = 7;
    cpu.v[4] = 2;
    cpu.process_opcode(0x8345);
    assert_eq!(cpu.v[3], 5, "Vx was loaded with vx - vy");
    assert_eq!(cpu.v[0xF], 0, "no borrow occured");
}

#[test]
fn opcode_subn_vx_vy() {
    let mut cpu = get_cpu();
    cpu.v[1] = 100;
    cpu.v[2] = 10;

    // the operands are swapped: vy - vx
    cpu.process_opcode(0x8127);
    assert_eq!(cpu.v[1], 166, "Vx was loaded with vy - vx, wrapped");
    assert_eq!(cpu.v[0xF], 1, "the flag reports the negative signed result");
}

#[test]
fn opcode_shr_vx() {
    let mut cpu = get_cpu();
    cpu.v[1] = 0b00000101;

    cpu.process_opcode(0x8106);
    assert_eq!(cpu.v[1], 0b00000010, "Vx was shifted right");
    assert_eq!(cpu.v[0xF], 1, "the flag holds the shifted-out bit");
}

#[test]
fn opcode_shl_vx() {
    let mut cpu = get_cpu();
    cpu.v[1] = 0b10000001;

    cpu.process_opcode(0x810E);
    assert_eq!(cpu.v[1], 0b00000010, "Vx was shifted left");
    assert_eq!(cpu.v[0xF], 0x80, "the flag holds the raw masked high bit");
}

#[test]
fn opcode_jp_v0() {
    let mut cpu = get_cpu();
    cpu.v[0] = 4;

    cpu.process_opcode(0xB300);
    assert_eq!(cpu.pc, 0x304, "the program counter jumps to nnn plus V0");
}

#[test]
fn opcode_rnd_masked() {
    let mut cpu = get_cpu();

    cpu.process_opcode(0xC10F);
    assert_eq!(cpu.v[1] & 0xF0, 0, "the random byte is masked with kk");
    assert_eq!(cpu.pc, 2, "the program counter is advanced two bytes");

    cpu.process_opcode(0xC200);
    assert_eq!(cpu.v[2], 0, "a zero mask forces a zero byte");
}

#[test]
fn opcode_skp_sknp() {
    let mut cpu = get_cpu();
    cpu.v[1] = 5;
    cpu.interconnect.input.press_key(5);

    // key 5 is down: SKP skips
    cpu.process_opcode(0xE19E);
    assert_eq!(cpu.pc, 4, "SKP skips when the key is down");

    // key 5 is down: SKNP does not skip
    cpu.process_opcode(0xE1A1);
    assert_eq!(cpu.pc, 6, "SKNP does not skip when the key is down");

    cpu.v[2] = 7;
    cpu.process_opcode(0xE29E);
    assert_eq!(cpu.pc, 8, "SKP does not skip when the key is up");

    cpu.process_opcode(0xE2A1);
    assert_eq!(cpu.pc, 12, "SKNP skips when the key is up");
}

#[test]
fn opcode_delay_timer() {
    let mut cpu = get_cpu();
    cpu.v[1] = 42;

    cpu.process_opcode(0xF115);
    assert_eq!(cpu.dt, 42, "the delay timer is loaded from Vx");

    cpu.process_opcode(0xF207);
    assert_eq!(cpu.v[2], 42, "Vx is loaded from the delay timer");
}

#[test]
fn opcode_wait_key() {
    let mut cpu = get_cpu();
    cpu.v[1] = 9;

    // the plain keyboard reports key 0 at once
    cpu.process_opcode(0xF10A);
    assert_eq!(cpu.v[1], 0, "Vx holds the reported key");
    assert_eq!(cpu.pc, 2, "the program counter is advanced two bytes");
}

#[test]
fn opcode_add_i_vx() {
    let mut cpu = get_cpu();
    cpu.i = 0x100;
    cpu.v[1] = 0x20;

    cpu.process_opcode(0xF11E);
    assert_eq!(cpu.i, 0x120, "the address register accumulates Vx");
}

#[test]
fn opcode_ld_f_vx() {
    let mut cpu = get_cpu();
    cpu.v[1] = 4;

    cpu.process_opcode(0xF129);
    assert_eq!(cpu.i, 20, "the address register points at the glyph for Vx");
    assert_eq!(cpu.interconnect.memory.read(cpu.i as usize), 0x90, "the glyph's first byte");
}

#[test]
fn opcode_store_load_roundtrip() {
    let mut cpu = get_cpu();
    cpu.v[0] = 11;
    cpu.v[1] = 22;
    cpu.v[2] = 33;
    cpu.i = 0x340;

    cpu.process_opcode(0xF255);
    // scramble the registers, then read the span back
    cpu.v[0] = 0;
    cpu.v[1] = 0;
    cpu.v[2] = 0;
    cpu.process_opcode(0xF265);
    assert_eq!(cpu.v[0], 11, "V0 came back");
    assert_eq!(cpu.v[1], 22, "V1 came back");
    assert_eq!(cpu.v[2], 33, "V2 came back");
    assert_eq!(cpu.interconnect.memory.read(0x343), 0, "memory past the span is untouched");
}

#[test]
fn new_cpu_starts_at_reserved_offset() {
    let rom = vec![0_u8; 10];
    let interconnect = Interconnect::new_test(rom);
    let cpu = Cpu::new(interconnect);
    assert_eq!(cpu.pc, 0x200, "the program counter starts at the program offset");
    assert_eq!(cpu.sp, 0);
    assert_eq!(cpu.i, 0);
    assert_eq!(cpu.dt, 0);
}

#[test]
fn step_executes_program() {
    // 6105: V1 = 5; then 7103: V1 += 3
    let rom = vec![0x61, 0x05, 0x71, 0x03];
    let interconnect = Interconnect::new_test(rom);
    let mut cpu = Cpu::new(interconnect);
    cpu.dt = 2;

    assert!(cpu.step().is_ok());
    assert_eq!(cpu.v[1], 5);
    assert_eq!(cpu.pc, 0x202);
    assert_eq!(cpu.dt, 1, "the delay timer ticks once per cycle");

    assert!(cpu.step().is_ok());
    assert_eq!(cpu.v[1], 8);
    assert_eq!(cpu.pc, 0x204);
    assert_eq!(cpu.dt, 0);

    assert!(cpu.step().is_ok());
    assert_eq!(cpu.dt, 0, "the delay timer saturates at zero");
}

#[test]
fn execute_cycle_runs_one_instruction() {
    // 6A42: VA = 0x42
    let rom = vec![0x6A, 0x42];
    let interconnect = Interconnect::new_test(rom);
    let mut cpu = Cpu::new(interconnect);

    cpu.execute_cycle();
    assert_eq!(cpu.v[0xA], 0x42);
    assert_eq!(cpu.pc, 0x202);
}

#[test]
fn step_faults_on_return_with_empty_stack() {
    // 00EE: RET with nothing on the stack
    let rom = vec![0x00, 0xEE];
    let interconnect = Interconnect::new_test(rom);
    let mut cpu = Cpu::new(interconnect);

    let r = cpu.step();
    assert_eq!(r, Err(Fault::OutOfBounds));
    assert_eq!(cpu.pc, 0x200, "a faulting step leaves the machine untouched");
}

#[test]
fn step_faults_on_program_counter_out_of_memory() {
    let rom = vec![0_u8; 2];
    let interconnect = Interconnect::new_test(rom);
    let mut cpu = Cpu::new(interconnect);
    cpu.pc = 4095;

    assert_eq!(cpu.step(), Err(Fault::OutOfBounds));
}

#[test]
fn opcode_drw_sets_collision_flag() {
    let mut cpu = get_cpu();
    // an 8-pixel row at the top-left corner, stored at 0x300
    cpu.interconnect.memory.write(0x300, 0xFF);
    cpu.i = 0x300;

    cpu.process_opcode(0xD001);
    assert_eq!(cpu.v[0xF], 0, "nothing was on the display yet");

    cpu.process_opcode(0xD001);
    assert_eq!(cpu.v[0xF], 1, "the second draw collides with the first");
    assert_eq!(cpu.interconnect.memory.read(0x300), 0xFF, "the sprite bytes are untouched");
}
