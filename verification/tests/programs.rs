use rvcore::cpu::{StepOutcome, CPU};
use rvcore::dram::{DRAM_BASE, DRAM_SIZE};

// ---- a small assembler for the tests ----------------------------------------
fn r_type(f7: u32, rs2: u32, rs1: u32, f3: u32, rd: u32, op: u32) -> u32 {
    (f7 << 25) | (rs2 << 20) | (rs1 << 15) | (f3 << 12) | (rd << 7) | op
}
fn i_type(imm: i32, rs1: u32, f3: u32, rd: u32, op: u32) -> u32 {
    (((imm as u32) & 0xfff) << 20) | (rs1 << 15) | (f3 << 12) | (rd << 7) | op
}
fn s_type(imm: i32, rs2: u32, rs1: u32, f3: u32) -> u32 {
    let u = imm as u32;
    (((u >> 5) & 0x7f) << 25) | (rs2 << 20) | (rs1 << 15) | (f3 << 12) | ((u & 0x1f) << 7) | 0x23
}
fn b_type(imm: i32, rs2: u32, rs1: u32, f3: u32) -> u32 {
    let u = imm as u32;
    (((u >> 12) & 1) << 31)
        | (((u >> 5) & 0x3f) << 25)
        | (rs2 << 20)
        | (rs1 << 15)
        | (f3 << 12)
        | (((u >> 1) & 0xf) << 8)
        | (((u >> 11) & 1) << 7)
        | 0x63
}
fn jal(rd: u32, imm: i32) -> u32 {
    let u = imm as u32;
    (((u >> 20) & 1) << 31)
        | (((u >> 1) & 0x3ff) << 21)
        | (((u >> 11) & 1) << 20)
        | (((u >> 12) & 0xff) << 12)
        | (rd << 7)
        | 0x6f
}
fn jalr(rd: u32, rs1: u32, imm: i32) -> u32 {
    i_type(imm, rs1, 0, rd, 0x67)
}
fn lui(rd: u32, imm20: u32) -> u32 {
    (imm20 << 12) | (rd << 7) | 0x37
}
fn auipc(rd: u32, imm20: u32) -> u32 {
    (imm20 << 12) | (rd << 7) | 0x17
}
fn addi(rd: u32, rs1: u32, imm: i32) -> u32 {
    i_type(imm, rs1, 0, rd, 0x13)
}
fn op(f7: u32, f3: u32, rd: u32, rs1: u32, rs2: u32) -> u32 {
    r_type(f7, rs2, rs1, f3, rd, 0x33)
}
fn op32(f7: u32, f3: u32, rd: u32, rs1: u32, rs2: u32) -> u32 {
    r_type(f7, rs2, rs1, f3, rd, 0x3b)
}
fn imm32(f3: u32, rd: u32, rs1: u32, imm: i32) -> u32 {
    i_type(imm, rs1, f3, rd, 0x1b)
}
fn load(f3: u32, rd: u32, rs1: u32, imm: i32) -> u32 {
    i_type(imm, rs1, f3, rd, 0x03)
}
fn store(f3: u32, rs2: u32, rs1: u32, imm: i32) -> u32 {
    s_type(imm, rs2, rs1, f3)
}
fn beq(rs1: u32, rs2: u32, imm: i32) -> u32 {
    b_type(imm, rs2, rs1, 0)
}

fn code_of(program: &[u32]) -> Vec<u8> {
    program.iter().flat_map(|w| w.to_le_bytes()).collect()
}

/// Runs `program` as the emulator's main loop does; returns the processor and
/// what the UART sent.
fn run(program: &[u32]) -> (CPU, Vec<u8>) {
    let code = code_of(program);
    let len = code.len() as u64;
    let mut cpu = CPU::new(code);
    let mut sent = Vec::new();
    for _ in 0..100_000 {
        let outcome = cpu.step(len);
        sent.extend(cpu.system_bus.take_output());
        match outcome {
            StepOutcome::Continue => {}
            StepOutcome::Halt => return (cpu, sent),
            StepOutcome::Rejected(i) => panic!("instruction {:#x} refused", i),
        }
    }
    panic!("program did not stop");
}

fn sx(v: i64) -> u64 {
    v as u64
}

// ---- programs ---------------------------------------------------------------
#[test]
fn fibonacci_of_ten_is_55() {
    let program = [
        addi(1, 0, 10),
        addi(2, 0, 0),
        addi(3, 0, 1),
        beq(1, 0, 24),
        op(0, 0, 4, 2, 3),
        addi(2, 3, 0),
        addi(3, 4, 0),
        addi(1, 1, -1),
        jal(0, -20),
        addi(5, 2, 0),
    ];
    let (cpu, _) = run(&program);
    assert_eq!(cpu.reg[5], 55);
    assert_eq!(cpu.reg[1], 0);
}

#[test]
fn multiply_by_repeated_addition() {
    let program = [
        addi(1, 0, 5),
        addi(2, 0, 4),
        addi(3, 0, 0),
        beq(2, 0, 16),
        op(0, 0, 3, 3, 1),
        addi(2, 2, -1),
        jal(0, -12),
        addi(0, 0, 0),
    ];
    let (cpu, _) = run(&program);
    assert_eq!(cpu.reg[3], 20);
}

#[test]
fn alu_register_register() {
    let program = [
        addi(1, 0, -7),
        addi(2, 0, 3),
        op(0x00, 0, 3, 1, 2),  // add
        op(0x20, 0, 4, 1, 2),  // sub
        op(0x00, 7, 5, 1, 2),  // and
        op(0x00, 6, 6, 1, 2),  // or
        op(0x00, 4, 7, 1, 2),  // xor
        op(0x00, 2, 8, 1, 2),  // slt
        op(0x00, 3, 9, 1, 2),  // sltu
        op(0x00, 1, 10, 2, 2), // sll 3 << 3
        op(0x20, 5, 11, 1, 2), // sra -7 >> 3
        op(0x00, 5, 12, 1, 2), // srl -7 >> 3
    ];
    let (cpu, _) = run(&program);
    assert_eq!(cpu.reg[3], sx(-4));
    assert_eq!(cpu.reg[4], sx(-10));
    assert_eq!(cpu.reg[5], 1);
    assert_eq!(cpu.reg[6], sx(-5));
    assert_eq!(cpu.reg[7], sx(-6));
    assert_eq!(cpu.reg[8], 1);
    assert_eq!(cpu.reg[9], 0);
    assert_eq!(cpu.reg[10], 24);
    assert_eq!(cpu.reg[11], sx(-1));
    assert_eq!(cpu.reg[12], 0x1fff_ffff_ffff_ffff);
}

#[test]
fn alu_register_immediate() {
    let program = [
        addi(1, 0, -7),
        i_type(-1, 1, 2, 2, 0x13),          // slti -7 < -1
        i_type(5, 1, 3, 3, 0x13),           // sltiu: huge < 5 is false
        i_type(0x0f0, 1, 4, 4, 0x13),       // xori
        i_type(0x0f0, 1, 6, 5, 0x13),       // ori
        i_type(0x0f0, 1, 7, 6, 0x13),       // andi
        i_type(60, 1, 1, 7, 0x13),          // slli 60
        i_type(0x400 | 63, 1, 5, 8, 0x13),  // srai 63
        i_type(60, 1, 5, 9, 0x13),          // srli 60
        addi(10, 0, 0x7ff),
        addi(11, 0, -0x800),
    ];
    let (cpu, _) = run(&program);
    assert_eq!(cpu.reg[2], 1);
    assert_eq!(cpu.reg[3], 0);
    assert_eq!(cpu.reg[4], sx(-7) ^ 0xf0);
    assert_eq!(cpu.reg[5], sx(-7) | 0xf0);
    assert_eq!(cpu.reg[6], sx(-7) & 0xf0);
    assert_eq!(cpu.reg[7], 0x9000_0000_0000_0000);
    assert_eq!(cpu.reg[8], u64::MAX);
    assert_eq!(cpu.reg[9], 0xf);
    assert_eq!(cpu.reg[10], 0x7ff);
    assert_eq!(cpu.reg[11], sx(-2048));
}

#[test]
fn sltiu_one_tests_for_zero() {
    let program = [
        addi(1, 0, 0),
        addi(2, 0, 9),
        i_type(1, 1, 3, 3, 0x13),
        i_type(1, 2, 3, 4, 0x13),
        i_type(1, 0, 3, 5, 0x13),
    ];
    let (cpu, _) = run(&program);
    assert_eq!(cpu.reg[3], 1);
    assert_eq!(cpu.reg[4], 0);
    assert_eq!(cpu.reg[5], 1);
}

#[test]
fn lui_builds_the_uart_address_and_addi_completes_constants() {
    let program = [
        lui(1, 0x10000),
        lui(2, 0x12345),
        addi(2, 2, 0x678),
        lui(3, 0x12345),
        addi(3, 3, -1), // 0x12345000 - 1
        lui(4, 0x80000), // sign-extended
    ];
    let (cpu, _) = run(&program);
    assert_eq!(cpu.reg[1], 0x1000_0000);
    assert_eq!(cpu.reg[2], 0x1234_5678);
    assert_eq!(cpu.reg[3], 0x1234_4fff);
    assert_eq!(cpu.reg[4], 0xffff_ffff_8000_0000);
}

#[test]
fn auipc_adds_to_its_own_address() {
    let program = [addi(0, 0, 0), auipc(1, 0), auipc(2, 1)];
    let (cpu, _) = run(&program);
    assert_eq!(cpu.reg[1], DRAM_BASE + 4);
    assert_eq!(cpu.reg[2], DRAM_BASE + 8 + 0x1000);
}

#[test]
fn load_store_round_trip_with_negative_offsets() {
    let program = [
        auipc(2, 1),              // x2 = DRAM_BASE + 0x1000
        addi(1, 0, -2),           // 0xffff_ffff_ffff_fffe
        store(3, 1, 2, -8),       // sd x1, -8(x2)
        load(3, 3, 2, -8),        // ld
        load(0, 4, 2, -8),        // lb   -> -2
        load(4, 5, 2, -8),        // lbu  -> 0xfe
        load(1, 6, 2, -8),        // lh
        load(5, 7, 2, -8),        // lhu
        load(2, 8, 2, -8),        // lw
        load(6, 9, 2, -8),        // lwu
        addi(10, 0, 0x123),
        store(1, 10, 2, 100),     // sh x10, 100(x2)
        load(5, 11, 2, 100),      // lhu
        store(0, 10, 2, 101),     // sb x10, 101(x2): overwrites the high byte
        load(5, 12, 2, 100),
        store(2, 1, 2, 200),      // sw
        load(3, 13, 2, 200),      // ld sees 4 written bytes
    ];
    let (cpu, _) = run(&program);
    assert_eq!(cpu.reg[3], sx(-2));
    assert_eq!(cpu.reg[4], sx(-2));
    assert_eq!(cpu.reg[5], 0xfe);
    assert_eq!(cpu.reg[6], sx(-2));
    assert_eq!(cpu.reg[7], 0xfffe);
    assert_eq!(cpu.reg[8], sx(-2));
    assert_eq!(cpu.reg[9], 0xffff_fffe);
    assert_eq!(cpu.reg[11], 0x123);
    assert_eq!(cpu.reg[12], 0x2323);
    assert_eq!(cpu.reg[13], 0xffff_fffe);
}

#[test]
fn store_to_the_first_byte_of_memory() {
    let program = [auipc(1, 0), addi(2, 0, 0x55), store(0, 2, 1, 0), load(4, 3, 1, 0)];
    let (cpu, _) = run(&program);
    assert_eq!(cpu.reg[3], 0x55);
    assert_eq!(cpu.system_bus.load(DRAM_BASE, 8), Ok(0x55));
}

#[test]
fn call_and_return_with_jal_and_jalr() {
    let program = [
        addi(10, 0, 1),
        jal(1, 12),         // call f (index 4)
        addi(11, 10, 0),    // after return
        jal(0, 12),         // jump over f to the end
        addi(10, 10, 41),   // f: x10 += 41
        jalr(0, 1, 0),      // return
        addi(12, 0, 7),
    ];
    let (cpu, _) = run(&program);
    assert_eq!(cpu.reg[1], DRAM_BASE + 8);
    assert_eq!(cpu.reg[10], 42);
    assert_eq!(cpu.reg[11], 42);
    assert_eq!(cpu.reg[12], 7);
}

#[test]
fn jalr_clears_the_lowest_bit() {
    let program = [auipc(5, 0), jalr(1, 5, 13), addi(6, 0, 1), addi(7, 0, 2)];
    // target = DRAM_BASE + 13 & !1 = DRAM_BASE + 12: skips index 2
    let (cpu, _) = run(&program);
    assert_eq!(cpu.reg[1], DRAM_BASE + 8);
    assert_eq!(cpu.reg[6], 0);
    assert_eq!(cpu.reg[7], 2);
}

#[test]
fn branches_signed_and_unsigned() {
    let program = [
        addi(1, 0, -1),
        addi(2, 0, 1),
        b_type(8, 2, 1, 4),  // blt -1 < 1: taken, skips next
        addi(3, 0, 1),
        b_type(8, 2, 1, 6),  // bltu: max < 1 false: falls through
        addi(4, 0, 1),
        b_type(8, 2, 1, 5),  // bge -1 >= 1 false
        addi(5, 0, 1),
        b_type(8, 2, 1, 7),  // bgeu taken
        addi(6, 0, 1),
        b_type(8, 2, 1, 1),  // bne taken
        addi(7, 0, 1),
        addi(8, 0, 1),
    ];
    let (cpu, _) = run(&program);
    assert_eq!(cpu.reg[3], 0);
    assert_eq!(cpu.reg[4], 1);
    assert_eq!(cpu.reg[5], 1);
    assert_eq!(cpu.reg[6], 0);
    assert_eq!(cpu.reg[7], 0);
    assert_eq!(cpu.reg[8], 1);
}

#[test]
fn word_operations_sign_extend() {
    let program = [
        lui(1, 0x7ffff),
        addi(1, 1, 0x7ff),          // 0x7ffff7ff
        imm32(0, 2, 1, 0x7ff),      // addiw: 0x7fffffff -> stays positive? 0x7ffff7ff + 0x7ff = 0x7ffffffe
        imm32(0, 3, 2, 2),          // addiw overflow: 0x80000000 -> negative
        imm32(1, 4, 1, 4),          // slliw
        imm32(5, 5, 3, 4),          // srliw
        i_type(0x400 | 4, 3, 5, 6, 0x1b), // sraiw
        op32(0x00, 0, 7, 2, 2),     // addw
        op32(0x20, 0, 8, 0, 2),     // subw 0 - x2
        addi(9, 0, 36),             // shift amount 36 & 31 = 4
        op32(0x00, 1, 10, 1, 9),    // sllw
        op32(0x00, 5, 11, 3, 9),    // srlw
        op32(0x20, 5, 12, 3, 9),    // sraw
    ];
    let (cpu, _) = run(&program);
    assert_eq!(cpu.reg[1], 0x7fff_f7ff);
    assert_eq!(cpu.reg[2], 0x7fff_fffe);
    assert_eq!(cpu.reg[3], 0xffff_ffff_8000_0000);
    assert_eq!(cpu.reg[4], 0xffff_ffff_ffff_7ff0);
    assert_eq!(cpu.reg[5], 0x0800_0000);
    assert_eq!(cpu.reg[6], 0xffff_ffff_f800_0000);
    assert_eq!(cpu.reg[7], 0xffff_ffff_ffff_fffc);
    assert_eq!(cpu.reg[8], 0xffff_ffff_8000_0002);
    assert_eq!(cpu.reg[10], 0xffff_ffff_ffff_7ff0);
    assert_eq!(cpu.reg[11], 0x0800_0000);
    assert_eq!(cpu.reg[12], 0xffff_ffff_f800_0000);
}

#[test]
fn division_and_remainder() {
    let program = [
        addi(1, 0, 7),
        addi(2, 0, -2),
        op(0x01, 4, 3, 1, 2),  // div 7 / -2 = -3
        op(0x01, 6, 4, 1, 2),  // rem 7 % -2 = 1
        op(0x01, 4, 5, 2, 1),  // div -2 / 7 = 0
        op(0x01, 6, 6, 2, 1),  // rem -2 % 7 = -2
        op(0x01, 4, 7, 1, 0),  // div by zero
        op(0x01, 6, 8, 1, 0),  // rem by zero
        addi(9, 0, 1),
        i_type(63, 9, 1, 9, 0x13), // x9 = i64::MIN
        addi(10, 0, -1),
        op(0x01, 4, 11, 9, 10), // MIN / -1 = MIN
        op(0x01, 6, 12, 9, 10), // MIN % -1 = 0
        addi(13, 0, -7),
        op(0x01, 4, 14, 13, 2), // -7 / -2 = 3
        op(0x01, 6, 15, 13, 2), // -7 % -2 = -1
    ];
    let (cpu, _) = run(&program);
    assert_eq!(cpu.reg[3], sx(-3));
    assert_eq!(cpu.reg[4], 1);
    assert_eq!(cpu.reg[5], 0);
    assert_eq!(cpu.reg[6], sx(-2));
    assert_eq!(cpu.reg[7], u64::MAX);
    assert_eq!(cpu.reg[8], 7);
    assert_eq!(cpu.reg[11], i64::MIN as u64);
    assert_eq!(cpu.reg[12], 0);
    assert_eq!(cpu.reg[14], 3);
    assert_eq!(cpu.reg[15], sx(-1));
}

#[test]
fn hello_world_on_the_uart() {
    let mut program = vec![lui(1, 0x10000)];
    for b in b"Hello World!" {
        program.push(addi(2, 0, *b as i32));
        program.push(load(4, 3, 1, 5)); // poll the status register
        program.push(store(0, 2, 1, 0));
    }
    let (cpu, sent) = run(&program);
    assert_eq!(sent, b"Hello World!".to_vec());
    assert_eq!(cpu.reg[3], 0x60);
}

#[test]
fn writes_to_x0_do_not_reach_the_next_instruction() {
    let program = [addi(0, 0, 5), addi(1, 0, 3), op(0, 0, 2, 0, 1)];
    let (cpu, _) = run(&program);
    assert_eq!(cpu.reg[2], 3);
}

// ---- single steps -----------------------------------------------------------
#[test]
fn decode_execute_grounds_x0_first() {
    let mut cpu = CPU::new(Vec::new());
    cpu.reg[0] = 99;
    assert_eq!(cpu.decode_execute(addi(1, 0, 1)), Ok(()));
    assert_eq!(cpu.reg[1], 1);
    cpu.reg[0] = 99;
    assert_eq!(cpu.decode_execute(0xffff_ffff), Err(()));
    assert_eq!(cpu.reg[0], 0);
}

#[test]
fn unknown_encodings_are_errors() {
    let mut cpu = CPU::new(Vec::new());
    cpu.reg[1] = 5;
    cpu.reg[2] = 6;
    let before = cpu.reg;
    assert_eq!(cpu.decode_execute(0), Err(()));
    assert_eq!(cpu.decode_execute(op(0x10, 0, 3, 1, 2)), Err(())); // add/sub with bad funct7
    assert_eq!(cpu.decode_execute(op(0x02, 4, 3, 1, 2)), Err(())); // xor/div
    assert_eq!(cpu.decode_execute(op(0x02, 6, 3, 1, 2)), Err(())); // or/rem
    assert_eq!(cpu.decode_execute(load(7, 3, 1, 0)), Err(()));
    assert_eq!(cpu.decode_execute(store(4, 2, 1, 0)), Err(()));
    assert_eq!(cpu.decode_execute(imm32(2, 3, 1, 0)), Err(()));
    assert_eq!(cpu.decode_execute(op32(0x01, 0, 3, 1, 2)), Err(()));
    assert_eq!(cpu.decode_execute(op32(0x00, 3, 3, 1, 2)), Err(()));
    assert_eq!(cpu.decode_execute(b_type(8, 2, 1, 2)), Err(()));
    assert_eq!(cpu.reg, before);
    assert_eq!(cpu.pc, DRAM_BASE);
}

#[test]
fn accesses_outside_any_device_are_errors() {
    let mut cpu = CPU::new(Vec::new());
    assert_eq!(cpu.decode_execute(load(3, 3, 0, 0x100)), Err(())); // address 0x100
    assert_eq!(cpu.decode_execute(store(3, 3, 0, 0x100)), Err(()));
    cpu.reg[1] = 0x1000_0000;
    assert_eq!(cpu.decode_execute(load(2, 3, 1, 0)), Err(())); // UART is one byte wide
}

#[test]
fn fetch_reads_the_instruction_at_pc() {
    let mut cpu = CPU::new(code_of(&[addi(1, 0, 1), 0xdead_beef]));
    assert_eq!(cpu.fetch(), Ok(addi(1, 0, 1)));
    cpu.pc += 4;
    assert_eq!(cpu.fetch(), Ok(0xdead_beef));
    cpu.pc = 0x100;
    assert_eq!(cpu.fetch(), Err(()));
}

#[test]
fn step_outcomes() {
    // a load past the end of memory is refused
    let code = code_of(&[lui(1, 0x80100), load(3, 2, 1, 0)]);
    let len = code.len() as u64;
    let mut cpu = CPU::new(code);
    assert_eq!(cpu.step(len), StepOutcome::Continue);
    cpu.reg[1] = DRAM_BASE + DRAM_SIZE;
    cpu.reg[2] = 77;
    assert_eq!(cpu.step(len), StepOutcome::Rejected(load(3, 2, 1, 0)));
    assert_eq!(cpu.reg[2], 77);
    assert_eq!(cpu.pc, DRAM_BASE + 8);

    // the program counter leaving the program
    let code = code_of(&[jal(0, 64)]);
    let mut cpu = CPU::new(code);
    assert_eq!(cpu.step(4), StepOutcome::Halt);
    assert_eq!(cpu.pc, DRAM_BASE + 64);

    // a jump below memory
    let code = code_of(&[jalr(0, 0, 0x100), addi(0, 0, 0)]);
    let mut cpu = CPU::new(code);
    assert_eq!(cpu.step(8), StepOutcome::Halt);
    assert_eq!(cpu.pc, 0x100);

    // a fetch that fails: below memory, and past its end
    let mut cpu = CPU::new(Vec::new());
    cpu.pc = 0x100;
    assert_eq!(cpu.step(0), StepOutcome::Halt);
    cpu.pc = DRAM_BASE + DRAM_SIZE - 2;
    assert_eq!(cpu.fetch(), Err(()));
    assert_eq!(cpu.step(0), StepOutcome::Halt);

    // an unknown instruction
    let code = code_of(&[0xffff_ffff]);
    let mut cpu = CPU::new(code);
    assert_eq!(cpu.step(4), StepOutcome::Rejected(0xffff_ffff));
}

#[test]
fn stores_past_the_end_of_memory_fail_and_change_nothing() {
    let mut cpu = CPU::new(Vec::new());
    cpu.reg[1] = DRAM_BASE + DRAM_SIZE - 4;
    cpu.reg[2] = u64::MAX;
    assert_eq!(cpu.decode_execute(store(3, 2, 1, 0)), Err(())); // sd runs 4 bytes past the end
    assert_eq!(cpu.system_bus.load(DRAM_BASE + DRAM_SIZE - 4, 32), Ok(0));
    assert_eq!(cpu.decode_execute(store(2, 2, 1, 0)), Ok(())); // sw fits exactly
    assert_eq!(cpu.system_bus.load(DRAM_BASE + DRAM_SIZE - 4, 32), Ok(0xffff_ffff));
    assert_eq!(cpu.decode_execute(load(3, 3, 1, 0)), Err(()));
    assert_eq!(cpu.reg[3], 0);
}

#[test]
fn x0_stays_zero_after_writes() {
    let mut cpu = CPU::new(Vec::new());
    cpu.pc = DRAM_BASE + 4;
    cpu.reg[1] = DRAM_BASE + 0x40;
    assert_eq!(cpu.decode_execute(0x0000_8067), Ok(())); // ret: jalr x0, 0(x1)
    assert_eq!(cpu.reg[0], 0);
    assert_eq!(cpu.pc, DRAM_BASE + 0x40);
    assert_eq!(cpu.decode_execute(jal(0, 8)), Ok(()));
    assert_eq!(cpu.reg[0], 0);
    assert_eq!(cpu.decode_execute(addi(0, 0, 5)), Ok(()));
    assert_eq!(cpu.reg[0], 0);
    assert_eq!(cpu.decode_execute(lui(0, 0x12345)), Ok(()));
    assert_eq!(cpu.reg[0], 0);
}

#[test]
fn a_program_ending_in_ret_leaves_x0_zero() {
    let program = [auipc(1, 0), addi(1, 1, 12), jalr(0, 1, 0), addi(2, 0, 3)];
    let (cpu, _) = run(&program);
    assert_eq!(cpu.reg[0], 0);
    assert_eq!(cpu.reg[2], 3);
}

#[test]
fn division_by_zero_gives_all_ones() {
    let mut cpu = CPU::new(Vec::new());
    cpu.reg[1] = 7;
    cpu.reg[2] = 0;
    assert_eq!(cpu.decode_execute(0x0220_C1B3), Ok(())); // div x3, x1, x2
    assert_eq!(cpu.reg[3], u64::MAX);
    assert_eq!(cpu.reg[1], 7);
    assert_eq!(cpu.reg[2], 0);
}

#[test]
fn diagnostics_for_refused_encodings() {
    assert_eq!(CPU::diagnostic(load(7, 3, 1, 0)), Some("Invalid load instruction"));
    assert_eq!(
        CPU::diagnostic(op(0x10, 0, 3, 1, 2)),
        Some("Invalid register-register add/sub operation\n")
    );
    assert_eq!(
        CPU::diagnostic(op(0x02, 4, 3, 1, 2)),
        Some("Invalid register-register xor/div operation\n")
    );
    assert_eq!(
        CPU::diagnostic(op(0x02, 6, 3, 1, 2)),
        Some("Invalid register-register or/rem operation\n")
    );
    assert_eq!(
        CPU::diagnostic(imm32(2, 3, 1, 0)),
        Some("Invalid W register-immediate AL 32-bit operation\n")
    );
    assert_eq!(
        CPU::diagnostic(op32(0x01, 0, 3, 1, 2)),
        Some("Invalid W register-register add/sub 32-bit operation\n")
    );
    assert_eq!(
        CPU::diagnostic(op32(0x00, 3, 3, 1, 2)),
        Some("Invalid W register-register 32-bit operation\n")
    );
    assert_eq!(CPU::diagnostic(b_type(8, 2, 1, 2)), Some("Invalid branch instruction\n"));
    assert_eq!(CPU::diagnostic(0), Some("Not supported command detected\n"));
    assert_eq!(CPU::diagnostic(store(4, 2, 1, 0)), None);
    assert_eq!(CPU::diagnostic(addi(1, 0, 1)), None);
    assert_eq!(CPU::diagnostic(op(0x01, 4, 3, 1, 2)), None);
}
