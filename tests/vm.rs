use lc3_vm::machine::{Fault, Machine, RunState, Step};
use lc3_vm::memory::{
    load_image, mem_read, mem_write, LoadError, Memory, MemoryMappedRegisters, KBDR_ADDR,
    KBSR_ADDR, KEY_READY, MEMORY_SIZE,
};
use lc3_vm::opcodes::{
    compute_effective_address, op_add, op_and, op_br, op_jmp, op_jsr, op_ld, op_ldi, op_ldr,
    op_lea, op_not, op_st, op_sti, op_str, sign_extend, update_flags, Opcode,
};
use lc3_vm::registers::{
    ConditionFlags, RegisterError, Registers, FL_NEG, FL_POS, FL_ZRO, PC_START, R_COND, R_PC,
};
use lc3_vm::trapcodes::{execute_trapcodes, TrapOutcome, HALT_NOTICE, IN_PROMPT};

fn machine_with(program: &[u16]) -> Machine {
    let mut m = Machine::new();
    for (i, w) in program.iter().enumerate() {
        m.memory.cells[PC_START as usize + i] = *w;
    }
    m
}

#[test]
fn sign_extend_five_bit_fields() {
    assert_eq!(sign_extend(0x1F, 5), 0xFFFF);
    assert_eq!(sign_extend(0x0F, 5), 0x000F);
    assert_eq!(sign_extend(0x10, 5), 0xFFF0);
    assert_eq!(sign_extend(0x1FF, 9), 0xFFFF);
    assert_eq!(sign_extend(0x100, 9), 0xFF00);
    assert_eq!(sign_extend(0x0FF, 9), 0x00FF);
    assert_eq!(sign_extend(0x400, 11), 0xFC00);
    assert_eq!(sign_extend(0x20, 6), 0xFFE0);
}

#[test]
fn sign_extend_ignores_bits_above_the_field() {
    assert_eq!(sign_extend(0xFF0F, 5), 0x000F);
    assert_eq!(sign_extend(0x0E1F, 5), 0xFFFF);
}

#[test]
fn sign_extend_is_idempotent() {
    for n in [1u16, 5, 6, 9, 11, 15, 16] {
        for v in 0..=u16::MAX {
            let once = sign_extend(v, n);
            assert_eq!(sign_extend(once, n), once, "v={v} n={n}");
        }
    }
}

#[test]
fn effective_address_wraps() {
    assert_eq!(compute_effective_address(0xFFFF, 1), 0x0000);
    assert_eq!(compute_effective_address(0x3000, 0xFFFF), 0x2FFF);
    assert_eq!(compute_effective_address(0x1234, 0x0001), 0x1235);
}

#[test]
fn add_immediate_minus_one() {
    let mut regs = Registers::new();
    regs.update(1, 5).unwrap();
    // ADD R0, R1, #-1
    op_add(0b0001_000_001_1_11111, &mut regs).unwrap();
    assert_eq!(regs.get(0).unwrap(), 4);
    assert_eq!(regs.get(R_COND).unwrap(), FL_POS);
}

#[test]
fn add_registers_wraps_and_flags() {
    let mut regs = Registers::new();
    regs.update(1, 0xFFFF).unwrap();
    regs.update(2, 1).unwrap();
    // ADD R3, R1, R2
    op_add(0b0001_011_001_0_00_010, &mut regs).unwrap();
    assert_eq!(regs.r_03, 0);
    assert_eq!(regs.r_cond, FL_ZRO);
    regs.update(2, 0x7FFF).unwrap();
    regs.update(1, 1).unwrap();
    op_add(0b0001_011_001_0_00_010, &mut regs).unwrap();
    assert_eq!(regs.r_03, 0x8000);
    assert_eq!(regs.r_cond, FL_NEG);
}

#[test]
fn flags_follow_every_flagged_write() {
    for w in [0u16, 1, 0x7FFF, 0x8000, 0xFFFF, 0x1234, 0xABCD] {
        let mut regs = Registers::new();
        regs.update(4, w).unwrap();
        update_flags(4, &mut regs).unwrap();
        let expected = if w == 0 {
            FL_ZRO
        } else if w >> 15 == 1 {
            FL_NEG
        } else {
            FL_POS
        };
        assert_eq!(regs.r_cond, expected, "w={w:#x}");
        // NOT R5, R4 writes !w and sets the flags from it.
        op_not(0b1001_101_100_111111, &mut regs).unwrap();
        let n = !w;
        assert_eq!(regs.r_05, n);
        let expected = if n == 0 {
            FL_ZRO
        } else if n >> 15 == 1 {
            FL_NEG
        } else {
            FL_POS
        };
        assert_eq!(regs.r_cond, expected);
    }
}

#[test]
fn condition_flag_values() {
    assert_eq!(ConditionFlags::POS.value(), 1);
    assert_eq!(ConditionFlags::ZRO.value(), 2);
    assert_eq!(ConditionFlags::NEG.value(), 4);
}

#[test]
fn and_immediate_and_registers() {
    let mut regs = Registers::new();
    regs.update(1, 0xF0F0).unwrap();
    // AND R0, R1, #-16 (0x10 sign-extends to 0xFFF0)
    op_and(0b0101_000_001_1_10000, &mut regs).unwrap();
    assert_eq!(regs.r_00, 0xF0F0);
    assert_eq!(regs.r_cond, FL_NEG);
    regs.update(2, 0x0F0F).unwrap();
    // AND R0, R1, R2
    op_and(0b0101_000_001_0_00_010, &mut regs).unwrap();
    assert_eq!(regs.r_00, 0);
    assert_eq!(regs.r_cond, FL_ZRO);
}

#[test]
fn branch_taken_and_not_taken() {
    let mut regs = Registers::new();
    regs.update_cond(FL_ZRO);
    // BRz #-2
    op_br(0b0000_010_111111110, &mut regs).unwrap();
    assert_eq!(regs.get_pc(), 0x2FFE);
    // BRnp #5 with the zero flag set: not taken
    op_br(0b0000_101_000000101, &mut regs).unwrap();
    assert_eq!(regs.get_pc(), 0x2FFE);
    assert_eq!(regs.get_cond(), FL_ZRO);
}

#[test]
fn jumps_and_subroutine_calls() {
    let mut regs = Registers::new();
    regs.update(3, 0x4000).unwrap();
    // JMP R3
    op_jmp(0b1100_000_011_000000, &mut regs).unwrap();
    assert_eq!(regs.get_pc(), 0x4000);
    // JSR #-1 (long mode)
    op_jsr(0b0100_1_11111111111, &mut regs).unwrap();
    assert_eq!(regs.r_07, 0x4000);
    assert_eq!(regs.get_pc(), 0x3FFF);
    // JSRR R3
    op_jsr(0b0100_0_00_011_000000, &mut regs).unwrap();
    assert_eq!(regs.r_07, 0x3FFF);
    assert_eq!(regs.get_pc(), 0x4000);
    // JSRR R7: the link is written before the base is read
    op_jsr(0b0100_0_00_111_000000, &mut regs).unwrap();
    assert_eq!(regs.r_07, 0x4000);
    assert_eq!(regs.get_pc(), 0x4000);
}

#[test]
fn lea_loads_the_address() {
    let mut regs = Registers::new();
    // LEA R2, #-3
    op_lea(0b1110_010_111111101, &mut regs).unwrap();
    assert_eq!(regs.r_02, 0x2FFD);
    assert_eq!(regs.r_cond, FL_POS);
}

#[test]
fn ldi_follows_one_pointer() {
    let mut memory = Memory::new();
    mem_write(0x3000, 0x4000, &mut memory);
    mem_write(0x4000, 0x1234, &mut memory);
    let mut regs = Registers::new();
    regs.update_pc(0x2FFF);
    // LDI R0, #1
    op_ldi(0b1010_000_000000001, &mut regs, &mut memory).unwrap();
    assert_eq!(regs.r_00, 0x1234);
    assert_eq!(regs.r_cond, FL_POS);
}

#[test]
fn ld_and_ldr_read_memory() {
    let mut memory = Memory::new();
    mem_write(0x3005, 0x8001, &mut memory);
    mem_write(0x0001, 0x0042, &mut memory);
    let mut regs = Registers::new();
    // LD R1, #5
    op_ld(0b0010_001_000000101, &mut regs, &mut memory).unwrap();
    assert_eq!(regs.r_01, 0x8001);
    assert_eq!(regs.r_cond, FL_NEG);
    regs.update(2, 0xFFFF).unwrap();
    // LDR R3, R2, #2: 0xFFFF + 2 wraps to 0x0001
    op_ldr(0b0110_011_010_000010, &mut regs, &mut memory).unwrap();
    assert_eq!(regs.r_03, 0x0042);
    assert_eq!(regs.r_cond, FL_POS);
}

#[test]
fn stores_write_memory_and_leave_flags() {
    let mut memory = Memory::new();
    let mut regs = Registers::new();
    regs.update(1, 0xBEEF).unwrap();
    regs.update(2, 0x5000).unwrap();
    regs.update_cond(FL_ZRO);
    // ST R1, #-1
    op_st(0b0011_001_111111111, &mut regs, &mut memory).unwrap();
    assert_eq!(memory.cells[0x2FFF], 0xBEEF);
    // STR R1, R2, #-32
    op_str(0b0111_001_010_100000, &mut regs, &mut memory).unwrap();
    assert_eq!(memory.cells[0x4FE0], 0xBEEF);
    // STI R1, #2 through the pointer at 0x3002
    mem_write(0x3002, 0x6000, &mut memory);
    op_sti(0b1011_001_000000010, &mut regs, &mut memory).unwrap();
    assert_eq!(memory.cells[0x6000], 0xBEEF);
    assert_eq!(regs.r_cond, FL_ZRO);
    assert_eq!(regs.get_pc(), PC_START);
}

#[test]
fn register_index_out_of_bound() {
    let mut regs = Registers::new();
    assert_eq!(regs.get(10), Err(RegisterError::IndexOutOfBound(10)));
    assert_eq!(regs.update(12, 1), Err(RegisterError::IndexOutOfBound(12)));
    assert_eq!(update_flags(10, &mut regs), Err(RegisterError::IndexOutOfBound(10)));
    assert_eq!(regs.get(R_PC), Ok(PC_START));
    assert_eq!(regs.get(R_COND), Ok(0));
}

#[test]
fn new_registers_start_at_pc_start() {
    let regs = Registers::new();
    for i in 0..8 {
        assert_eq!(regs.get(i).unwrap(), 0);
    }
    assert_eq!(regs.get_pc(), 0x3000);
}

#[test]
fn image_load_places_words_from_origin() {
    let mut memory = Memory::new();
    load_image(&vec![0x30, 0x00, 0x00, 0x01], &mut memory).unwrap();
    assert_eq!(memory.cells.len(), MEMORY_SIZE);
    for (a, w) in memory.cells.iter().enumerate() {
        if a == 0x3000 {
            assert_eq!(*w, 0x0001);
        } else {
            assert_eq!(*w, 0, "address {a:#x}");
        }
    }
}

#[test]
fn image_origin_is_big_endian() {
    let mut memory = Memory::new();
    load_image(&vec![0x00, 0x30, 0x00, 0x01], &mut memory).unwrap();
    assert_eq!(memory.cells[0x0030], 0x0001);
    assert_eq!(memory.cells[0x3000], 0);
}

#[test]
fn image_load_big_endian_words_and_odd_byte() {
    let mut memory = Memory::new();
    load_image(&vec![0x12, 0x34, 0xAB, 0xCD, 0x00, 0x7F, 0xEE], &mut memory).unwrap();
    assert_eq!(memory.cells[0x1234], 0xABCD);
    assert_eq!(memory.cells[0x1235], 0x007F);
    assert_eq!(memory.cells[0x1236], 0);
}

#[test]
fn image_load_errors() {
    let mut memory = Memory::new();
    assert_eq!(load_image(&vec![0x30], &mut memory), Err(LoadError::MissingOrigin));
    assert_eq!(
        load_image(&vec![0xFF, 0xFF, 0x00, 0x01], &mut memory),
        Err(LoadError::TooLarge { origin: 0xFFFF, words: 1 })
    );
    assert_eq!(
        load_image(&vec![0xFF, 0xFE, 0x00, 0x01, 0x00, 0x02], &mut memory),
        Err(LoadError::TooLarge { origin: 0xFFFE, words: 2 })
    );
    assert!(memory.cells.iter().all(|w| *w == 0));
    load_image(&vec![0xFF, 0xFE, 0x00, 0x05], &mut memory).unwrap();
    assert_eq!(memory.cells[0xFFFE], 5);
    load_image(&vec![0x40, 0x00], &mut memory).unwrap();
}

#[test]
fn keyboard_status_read_polls_pending_keys() {
    let mut memory = Memory::new();
    assert_eq!(MemoryMappedRegisters::KBSR.address(), KBSR_ADDR);
    assert_eq!(MemoryMappedRegisters::KBDR.address(), KBDR_ADDR);
    memory.cells[KBSR_ADDR as usize] = 0x1111;
    assert_eq!(mem_read(KBSR_ADDR, &mut memory), 0);
    memory.push_key(b'a');
    memory.push_key(0);
    assert_eq!(mem_read(KBSR_ADDR, &mut memory), KEY_READY);
    assert_eq!(mem_read(KBDR_ADDR, &mut memory), b'a' as u16);
    assert_eq!(mem_read(KBSR_ADDR, &mut memory), 0);
    assert_eq!(mem_read(KBDR_ADDR, &mut memory), b'a' as u16);
    assert!(memory.keys.is_empty());
}

#[test]
fn plain_reads_and_writes_have_no_side_effect() {
    let mut memory = Memory::new();
    memory.push_key(b'x');
    mem_write(KBSR_ADDR, 7, &mut memory);
    assert_eq!(memory.cells[KBSR_ADDR as usize], 7);
    mem_write(0x1000, 9, &mut memory);
    assert_eq!(mem_read(0x1000, &mut memory), 9);
    assert_eq!(mem_read(KBDR_ADDR, &mut memory), 0);
    assert_eq!(memory.keys, vec![b'x']);
}

#[test]
fn puts_stops_at_the_zero_word() {
    let mut memory = Memory::new();
    mem_write(0x4000, b'A' as u16, &mut memory);
    mem_write(0x4001, b'B' as u16, &mut memory);
    mem_write(0x4002, 0, &mut memory);
    mem_write(0x4003, b'C' as u16, &mut memory);
    let mut regs = Registers::new();
    regs.update(0, 0x4000).unwrap();
    let mut out = Vec::new();
    let outcome = execute_trapcodes(0xF022, &mut regs, &mut memory, &mut out);
    assert_eq!(outcome, TrapOutcome::Continue);
    assert_eq!(out, b"AB".to_vec());
}

#[test]
fn puts_never_reads_past_the_sentinel() {
    let mut memory = Memory::new();
    mem_write(KBSR_ADDR - 2, b'A' as u16, &mut memory);
    mem_write(KBSR_ADDR - 1, 0, &mut memory);
    memory.push_key(b'k');
    let mut regs = Registers::new();
    regs.update(0, KBSR_ADDR - 2).unwrap();
    let mut out = Vec::new();
    execute_trapcodes(0xF022, &mut regs, &mut memory, &mut out);
    assert_eq!(out, b"A".to_vec());
    // the status register right after the string was not polled
    assert_eq!(memory.keys, vec![b'k']);
}

#[test]
fn puts_uses_the_low_byte_and_ends_at_the_top() {
    let mut memory = Memory::new();
    mem_write(0xFFFE, 0x1241, &mut memory);
    mem_write(0xFFFF, 0x0042, &mut memory);
    let mut regs = Registers::new();
    regs.update(0, 0xFFFE).unwrap();
    let mut out = Vec::new();
    execute_trapcodes(0x0022, &mut regs, &mut memory, &mut out);
    assert_eq!(out, b"AB".to_vec());
}

#[test]
fn putsp_writes_two_characters_per_word() {
    let mut memory = Memory::new();
    mem_write(0x5000, 0x4241, &mut memory);
    mem_write(0x5001, 0x0043, &mut memory);
    mem_write(0x5002, 0, &mut memory);
    let mut regs = Registers::new();
    regs.update(0, 0x5000).unwrap();
    let mut out = Vec::new();
    let outcome = execute_trapcodes(0xF024, &mut regs, &mut memory, &mut out);
    assert_eq!(outcome, TrapOutcome::Continue);
    assert_eq!(out, b"ABC".to_vec());
}

#[test]
fn out_getc_and_in_traps() {
    let mut memory = Memory::new();
    let mut regs = Registers::new();
    regs.update(0, 0x0141).unwrap();
    let mut out = Vec::new();
    execute_trapcodes(0xF021, &mut regs, &mut memory, &mut out);
    assert_eq!(out, b"A".to_vec());
    memory.push_key(b'q');
    memory.push_key(b'z');
    regs.update_cond(FL_NEG);
    execute_trapcodes(0xF020, &mut regs, &mut memory, &mut out);
    assert_eq!(regs.r_00, b'q' as u16);
    assert_eq!(regs.r_cond, FL_NEG);
    assert_eq!(out, b"A".to_vec());
    execute_trapcodes(0xF023, &mut regs, &mut memory, &mut out);
    assert_eq!(regs.r_00, b'z' as u16);
    let mut expected = b"A".to_vec();
    expected.extend_from_slice(IN_PROMPT.as_bytes());
    expected.extend_from_slice(b"z\n");
    assert_eq!(out, expected);
    assert!(memory.keys.is_empty());
}

#[test]
fn halt_and_unknown_traps() {
    let mut memory = Memory::new();
    let mut regs = Registers::new();
    let mut out = Vec::new();
    assert_eq!(execute_trapcodes(0xF025, &mut regs, &mut memory, &mut out), TrapOutcome::Halt);
    assert_eq!(out, HALT_NOTICE.as_bytes().to_vec());
    assert_eq!(out, b"HALT\n".to_vec());
    assert_eq!(execute_trapcodes(0xF026, &mut regs, &mut memory, &mut out), TrapOutcome::Unknown);
    assert_eq!(out, b"HALT\n".to_vec());
}

#[test]
fn opcode_decoding() {
    assert_eq!(Opcode::from_instr(0x1000), Opcode::ADD);
    assert_eq!(Opcode::from_instr(0x8000), Opcode::RTI);
    assert_eq!(Opcode::from_instr(0xD123), Opcode::RES);
    assert_eq!(Opcode::from_instr(0xF025), Opcode::TRAP);
    assert_eq!(Opcode::from_instr(0x0FFF), Opcode::BR);
    for code in 0..16u16 {
        assert_eq!(Opcode::from_instr(code << 12).code(), code);
    }
}

#[test]
fn halt_stops_the_machine() {
    // ADD R0, R0, #1; HALT; ADD R0, R0, #1
    let mut m = machine_with(&[0x1021, 0xF025, 0x1021]);
    assert_eq!(m.state, RunState::Running);
    assert_eq!(m.step(), Step::Executed);
    assert_eq!(m.registers.r_00, 1);
    assert_eq!(m.step(), Step::Executed);
    assert_eq!(m.state, RunState::Halted);
    assert_eq!(m.registers.get_pc(), 0x3002);
    assert_eq!(m.step(), Step::Stopped);
    assert_eq!(m.step(), Step::Stopped);
    assert_eq!(m.registers.r_00, 1);
    assert_eq!(m.registers.get_pc(), 0x3002);
    assert_eq!(m.take_output(), b"HALT\n".to_vec());
    assert!(m.take_output().is_empty());
}

#[test]
fn reserved_opcodes_fault_in_place() {
    for (word, opcode) in [(0x8000u16, Opcode::RTI), (0xD000u16, Opcode::RES)] {
        let mut m = machine_with(&[0x1021, word, 0x1021]);
        assert_eq!(m.step(), Step::Executed);
        assert_eq!(m.step(), Step::Executed);
        assert_eq!(
            m.state,
            RunState::Faulted(Fault::ReservedOpcode { opcode, pc: 0x3001 })
        );
        assert_eq!(m.registers.get_pc(), 0x3001);
        assert_eq!(m.registers.r_00, 1);
        assert_eq!(m.step(), Step::Stopped);
        assert_eq!(m.registers.r_00, 1);
        assert!(m.output.is_empty());
    }
}

#[test]
fn unknown_trap_faults() {
    let mut m = machine_with(&[0xF0FF]);
    assert_eq!(m.step(), Step::Executed);
    assert_eq!(
        m.state,
        RunState::Faulted(Fault::UnknownTrap { code: 0xFF, pc: 0x3000 })
    );
    assert_eq!(m.registers.get_pc(), 0x3000);
}

#[test]
fn getc_waits_for_a_key() {
    // GETC; HALT
    let mut m = machine_with(&[0xF020, 0xF025]);
    assert_eq!(m.step(), Step::NeedsKey);
    assert_eq!(m.step(), Step::NeedsKey);
    assert_eq!(m.registers.get_pc(), 0x3000);
    m.memory.push_key(b'x');
    assert_eq!(m.step(), Step::Executed);
    assert_eq!(m.registers.r_00, b'x' as u16);
    assert_eq!(m.step(), Step::Executed);
    assert_eq!(m.state, RunState::Halted);
}

#[test]
fn relative_addresses_count_from_the_next_instruction() {
    // LEA R1, #0; LD R2, #1; HALT; .FILL 0x0777
    let mut m = machine_with(&[0xE200, 0x2401, 0xF025, 0x0777]);
    assert_eq!(m.step(), Step::Executed);
    assert_eq!(m.registers.r_01, 0x3001);
    assert_eq!(m.step(), Step::Executed);
    assert_eq!(m.registers.r_02, 0x0777);
}

#[test]
fn counting_loop_program() {
    // AND R0, R0, #0
    // ADD R1, R0, #3
    // loop: ADD R0, R0, #2
    //       ADD R1, R1, #-1
    //       BRp loop
    // LEA R0, msg ; PUTS ; HALT
    // msg: "Hi", 0
    let program = [
        0b0101_000_000_1_00000u16,
        0b0001_001_000_1_00011,
        0b0001_000_000_1_00010,
        0b0001_001_001_1_11111,
        0b0000_001_111111101,
        0xE002,
        0xF022,
        0xF025,
        b'H' as u16,
        b'i' as u16,
        0,
    ];
    let mut m = machine_with(&program);
    let mut guard = 0;
    let mut seen_six = false;
    while m.step() == Step::Executed {
        if m.registers.r_01 == 0 && m.registers.r_00 == 6 {
            seen_six = true;
        }
        guard += 1;
        assert!(guard < 100);
    }
    assert!(seen_six);
    assert_eq!(m.state, RunState::Halted);
    assert_eq!(m.take_output(), b"HiHALT\n".to_vec());
}

#[test]
fn keyboard_polling_program() {
    // poll: LDI R0, kbsr_ptr ; BRzp poll ; LDI R0, kbdr_ptr ; HALT
    // kbsr_ptr: 0xFE00 ; kbdr_ptr: 0xFE02
    let program = [0xA003, 0x07FE, 0xA002, 0xF025, 0xFE00, 0xFE02];
    let mut m = machine_with(&program);
    for _ in 0..4 {
        assert_eq!(m.step(), Step::Executed);
    }
    assert_eq!(m.registers.get_pc(), 0x3000);
    m.memory.push_key(b'g');
    let mut guard = 0;
    while m.step() == Step::Executed {
        guard += 1;
        assert!(guard < 100);
    }
    assert_eq!(m.state, RunState::Halted);
    assert_eq!(m.registers.r_00, b'g' as u16);
}
