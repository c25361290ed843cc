use vstd::prelude::*;
use vstd::arithmetic::div_mod::{lemma_mod_multiples_vanish, lemma_small_mod};
use vstd::arithmetic::power2::{
    lemma2_to64, lemma_pow2_adds, lemma_pow2_pos, lemma_pow2_strictly_increases, lemma_pow2_unfold,
    pow2,
};
use vstd::bits::lemma_u32_shl_is_mul;

use crate::memory::{after_read, mem_read, mem_write, read_value, Memory};
use crate::registers::{
    flag_of, ConditionFlags, RegisterError, Registers, FL_NEG, FL_POS, FL_ZRO, REGISTER_COUNT,
    R_COND, R_PC,
};

verus! {

/// The sixteen operations, selected by the top four bits of an instruction.
#[derive(Debug, Clone, Copy, PartialEq, Eq, Structural)]
pub enum Opcode {
    /// branch
    BR,
    /// add
    ADD,
    /// load
    LD,
    /// store
    ST,
    /// jump to subroutine
    JSR,
    /// bitwise and
    AND,
    /// load base + offset
    LDR,
    /// store base + offset
    STR,
    /// return from interrupt (reserved)
    RTI,
    /// bitwise not
    NOT,
    /// load indirect
    LDI,
    /// store indirect
    STI,
    /// jump
    JMP,
    /// reserved
    RES,
    /// load effective address
    LEA,
    /// system call
    TRAP,
}

impl Opcode {
    /// The four-bit code of the operation.
    pub open spec fn spec_code(self) -> u16 {
        match self {
            Opcode::BR => 0,
            Opcode::ADD => 1,
            Opcode::LD => 2,
            Opcode::ST => 3,
            Opcode::JSR => 4,
            Opcode::AND => 5,
            Opcode::LDR => 6,
            Opcode::STR => 7,
            Opcode::RTI => 8,
            Opcode::NOT => 9,
            Opcode::LDI => 10,
            Opcode::STI => 11,
            Opcode::JMP => 12,
            Opcode::RES => 13,
            Opcode::LEA => 14,
            Opcode::TRAP => 15,
        }
    }

    /// The four-bit code of the operation.
    pub fn code(&self) -> (r: u16)
        ensures
            r == self.spec_code(),
    {
        match self {
            Opcode::BR => 0,
            Opcode::ADD => 1,
            Opcode::LD => 2,
            Opcode::ST => 3,
            Opcode::JSR => 4,
            Opcode::AND => 5,
            Opcode::LDR => 6,
            Opcode::STR => 7,
            Opcode::RTI => 8,
            Opcode::NOT => 9,
            Opcode::LDI => 10,
            Opcode::STI => 11,
            Opcode::JMP => 12,
            Opcode::RES => 13,
            Opcode::LEA => 14,
            Opcode::TRAP => 15,
        }
    }

    /// Whether the operation is reserved: executing it is a fault.
    pub open spec fn spec_is_reserved(self) -> bool {
        self == Opcode::RTI || self == Opcode::RES
    }

    /// The operation that an instruction word selects (its top four bits).
    pub fn from_instr(instr: u16) -> (r: Opcode)
        ensures
            r == decode(instr),
            r.spec_code() == instr >> 12,
    {
        let op = instr >> 12;
        assert(instr >> 12 < 16) by (bit_vector);
        match op {
            0 => Opcode::BR,
            1 => Opcode::ADD,
            2 => Opcode::LD,
            3 => Opcode::ST,
            4 => Opcode::JSR,
            5 => Opcode::AND,
            6 => Opcode::LDR,
            7 => Opcode::STR,
            8 => Opcode::RTI,
            9 => Opcode::NOT,
            10 => Opcode::LDI,
            11 => Opcode::STI,
            12 => Opcode::JMP,
            13 => Opcode::RES,
            14 => Opcode::LEA,
            _ => Opcode::TRAP,
        }
    }
}

/// The operation whose code is the top four bits of `instr`.
pub open spec fn decode(instr: u16) -> Opcode {
    let op = instr >> 12;
    if op == 0 {
        Opcode::BR
    } else if op == 1 {
        Opcode::ADD
    } else if op == 2 {
        Opcode::LD
    } else if op == 3 {
        Opcode::ST
    } else if op == 4 {
        Opcode::JSR
    } else if op == 5 {
        Opcode::AND
    } else if op == 6 {
        Opcode::LDR
    } else if op == 7 {
        Opcode::STR
    } else if op == 8 {
        Opcode::RTI
    } else if op == 9 {
        Opcode::NOT
    } else if op == 10 {
        Opcode::LDI
    } else if op == 11 {
        Opcode::STI
    } else if op == 12 {
        Opcode::JMP
    } else if op == 13 {
        Opcode::RES
    } else if op == 14 {
        Opcode::LEA
    } else {
        Opcode::TRAP
    }
}

/// A sum or difference of words, reduced modulo 2^16.
pub open spec fn wrap16(v: int) -> u16 {
    (v % 0x10000) as u16
}

/// The low `n` bits of `x`, as an unsigned quantity.
pub open spec fn low_field(x: u16, n: u16) -> int {
    x as int % pow2(n as nat) as int
}

/// The low `n` bits of `x`, read as a two's-complement quantity.
pub open spec fn signed_field(x: u16, n: u16) -> int {
    if low_field(x, n) >= pow2((n - 1) as nat) {
        low_field(x, n) - pow2(n as nat)
    } else {
        low_field(x, n)
    }
}

/// The two's-complement field in the low `n` bits of `x`, widened to a word.
pub open spec fn sign_extended(x: u16, n: u16) -> u16 {
    wrap16(signed_field(x, n))
}

/// Widens the two's-complement field in the low `bit_count` bits of `x` to a
/// full word, replicating its sign bit; the bits above the field are ignored.
pub fn sign_extend(x: u16, bit_count: u16) -> (r: u16)
    requires
        1 <= bit_count <= 16,
    ensures
        r == sign_extended(x, bit_count),
{
    proof {
        lemma2_to64();
        if bit_count < 16 {
            lemma_pow2_strictly_increases(bit_count as nat, 16);
        }
        lemma_pow2_unfold(bit_count as nat);
        lemma_u32_shl_is_mul(1, bit_count as u32);
    }
    let modulus: u32 = 1u32 << (bit_count as u32);
    let low: u32 = x as u32 % modulus;
    if low >= modulus / 2 {
        (low + 0x10000 - modulus) as u16
    } else {
        low as u16
    }
}

/// Sign extension is idempotent: extending an already extended word at the
/// same width gives it back.
pub proof fn lemma_sign_extend_idempotent(v: u16, n: u16)
    requires
        1 <= n <= 16,
    ensures
        sign_extended(sign_extended(v, n), n) == sign_extended(v, n),
{
    let p = pow2(n as nat) as int;
    let q = pow2((16 - n) as nat) as int;
    lemma2_to64();
    lemma_pow2_adds(n as nat, (16 - n) as nat);
    lemma_pow2_unfold(n as nat);
    assert(p * q == 0x10000);
    assert(q >= 1) by {
        lemma_pow2_pos((16 - n) as nat);
    }
    let low = low_field(v, n);
    assert(0 <= low < p);
    let s = sign_extended(v, n);
    if low >= pow2((n - 1) as nat) {
        assert(s as int == low + 0x10000 - p);
        assert(s as int == p * (q - 1) + low) by (nonlinear_arith)
            requires
                s as int == low + 0x10000 - p,
                p * q == 0x10000,
        ;
        lemma_mod_multiples_vanish(q - 1, low, p);
        lemma_small_mod(low as nat, p as nat);
    } else {
        assert(s as int == low);
        lemma_small_mod(low as nat, p as nat);
    }
    assert(low_field(s, n) == low);
}

/// Adds an offset to a base address modulo the size of the address space.
pub fn compute_effective_address(base: u16, offset: u16) -> (r: u16)
    ensures
        r == wrap16(base + offset),
{
    ((base as u32 + offset as u32) % 0x10000) as u16
}

/// The bank after `w` is written to register `d` and the condition register
/// is set from `w`.
pub open spec fn flagged(regs: Seq<u16>, d: u16, w: u16) -> Seq<u16> {
    regs.update(d as int, w).update(R_COND as int, flag_of(w))
}

/// After a flagged write of `w` to a general-purpose register, exactly one
/// flag is set: ZRO iff `w` is zero, NEG iff its high bit is set, POS
/// otherwise; the written register holds `w`.
pub proof fn lemma_flagged_write(regs: Seq<u16>, d: u16, w: u16)
    requires
        regs.len() == 10,
        d < 8,
    ensures
        flagged(regs, d, w)[d as int] == w,
        flagged(regs, d, w)[R_COND as int] == FL_ZRO <==> w == 0,
        flagged(regs, d, w)[R_COND as int] == FL_NEG <==> (w >> 15) == 1,
        flagged(regs, d, w)[R_COND as int] == FL_POS <==> w != 0 && (w >> 15) == 0,
        flagged(regs, d, w)[R_COND as int] == FL_ZRO || flagged(regs, d, w)[R_COND as int]
            == FL_NEG || flagged(regs, d, w)[R_COND as int] == FL_POS,
{
    assert((w >> 15) == 1 <==> w >= 0x8000) by (bit_vector);
    assert((w >> 15) == 0 <==> w < 0x8000) by (bit_vector);
}

/// Sets the condition register from the value that register `r` holds:
/// ZRO for zero, NEG when the high bit is set, POS otherwise.
pub fn update_flags(r: u16, register: &mut Registers) -> (res: Result<(), RegisterError>)
    ensures
        r < REGISTER_COUNT ==> res is Ok && final(register)@ == old(register)@.update(
            R_COND as int,
            flag_of(old(register)@[r as int]),
        ),
        r >= REGISTER_COUNT ==> res == Err::<(), RegisterError>(RegisterError::IndexOutOfBound(r))
            && final(register)@ == old(register)@,
{
    let value = register.get(r)?;
    if value == 0 {
        register.update_cond(ConditionFlags::ZRO.value());
    } else if (value >> 15) != 0 {
        assert(value >= 0x8000) by (bit_vector)
            requires
                (value >> 15) != 0,
        ;
        register.update_cond(ConditionFlags::NEG.value());
    } else {
        assert(value < 0x8000) by (bit_vector)
            requires
                (value >> 15) == 0,
        ;
        register.update_cond(ConditionFlags::POS.value());
    }
    Ok(())
}

/// Destination register (and source register of the stores), bits 9 to 11.
pub open spec fn dr(instr: u16) -> u16 {
    (instr >> 9) & 7
}

/// First source register (and base register), bits 6 to 8.
pub open spec fn sr1(instr: u16) -> u16 {
    (instr >> 6) & 7
}

/// Second source register, bits 0 to 2.
pub open spec fn sr2(instr: u16) -> u16 {
    instr & 7
}

/// Whether ADD or AND takes an immediate (bit 5).
pub open spec fn imm_mode(instr: u16) -> bool {
    (instr >> 5) & 1 == 1
}

/// The sign-extended 5-bit immediate.
pub open spec fn imm5(instr: u16) -> u16 {
    sign_extended(instr & 0x1F, 5)
}

/// The sign-extended 6-bit offset.
pub open spec fn offset6(instr: u16) -> u16 {
    sign_extended(instr & 0x3F, 6)
}

/// The sign-extended 9-bit offset.
pub open spec fn offset9(instr: u16) -> u16 {
    sign_extended(instr & 0x1FF, 9)
}

/// The sign-extended 11-bit offset.
pub open spec fn offset11(instr: u16) -> u16 {
    sign_extended(instr & 0x7FF, 11)
}

/// The second operand of ADD and AND.
pub open spec fn alu_operand(instr: u16, regs: Seq<u16>) -> u16 {
    if imm_mode(instr) {
        imm5(instr)
    } else {
        regs[sr2(instr) as int]
    }
}

/// PC plus the 9-bit offset: the address that BR, LD, LDI, LEA, ST and STI use.
pub open spec fn pc_relative(instr: u16, regs: Seq<u16>) -> u16 {
    wrap16(regs[R_PC as int] + offset9(instr))
}

/// Base register plus the 6-bit offset: the address that LDR and STR use.
pub open spec fn base_relative(instr: u16, regs: Seq<u16>) -> u16 {
    wrap16(regs[sr1(instr) as int] + offset6(instr))
}

proof fn lemma_fields(instr: u16)
    ensures
        dr(instr) < 8,
        sr1(instr) < 8,
        sr2(instr) < 8,
{
    assert((instr >> 9) & 7 < 8) by (bit_vector);
    assert((instr >> 6) & 7 < 8) by (bit_vector);
    assert(instr & 7 < 8) by (bit_vector);
}

pub open spec fn add_effect(instr: u16, regs: Seq<u16>) -> Seq<u16> {
    flagged(regs, dr(instr), wrap16(regs[sr1(instr) as int] + alu_operand(instr, regs)))
}

/// ADD: DR = SR1 + (SR2 or imm5), modulo 2^16; sets the flags.
pub fn op_add(instr: u16, register: &mut Registers) -> (r: Result<(), RegisterError>)
    ensures
        r is Ok,
        final(register)@ == add_effect(instr, old(register)@),
{
    proof {
        lemma_fields(instr);
    }
    let r0 = (instr >> 9) & 0x7;
    let r1 = (instr >> 6) & 0x7;
    let imm_flag = (instr >> 5) & 0x1;
    let operand = if imm_flag == 1 {
        sign_extend(instr & 0x1F, 5)
    } else {
        register.get(instr & 0x7)?
    };
    let value = register.get(r1)?.wrapping_add(operand);
    register.update(r0, value)?;
    update_flags(r0, register)?;
    Ok(())
}

pub open spec fn and_effect(instr: u16, regs: Seq<u16>) -> Seq<u16> {
    flagged(regs, dr(instr), regs[sr1(instr) as int] & alu_operand(instr, regs))
}

/// AND: DR = SR1 & (SR2 or imm5); sets the flags.
pub fn op_and(instr: u16, register: &mut Registers) -> (r: Result<(), RegisterError>)
    ensures
        r is Ok,
        final(register)@ == and_effect(instr, old(register)@),
{
    proof {
        lemma_fields(instr);
    }
    let r0 = (instr >> 9) & 0x7;
    let r1 = (instr >> 6) & 0x7;
    let imm_flag = (instr >> 5) & 0x1;
    let operand = if imm_flag == 1 {
        sign_extend(instr & 0x1F, 5)
    } else {
        register.get(instr & 0x7)?
    };
    let value = register.get(r1)? & operand;
    register.update(r0, value)?;
    update_flags(r0, register)?;
    Ok(())
}

pub open spec fn not_effect(instr: u16, regs: Seq<u16>) -> Seq<u16> {
    flagged(regs, dr(instr), !regs[sr1(instr) as int])
}

/// NOT: DR = bitwise complement of SR; sets the flags.
pub fn op_not(instr: u16, register: &mut Registers) -> (r: Result<(), RegisterError>)
    ensures
        r is Ok,
        final(register)@ == not_effect(instr, old(register)@),
{
    proof {
        lemma_fields(instr);
    }
    let r0 = (instr >> 9) & 0x7;
    let r1 = (instr >> 6) & 0x7;
    let value = !register.get(r1)?;
    register.update(r0, value)?;
    update_flags(r0, register)?;
    Ok(())
}

/// The condition bits n, z, p of a branch (bits 9 to 11).
pub open spec fn br_conditions(instr: u16) -> u16 {
    (instr >> 9) & 7
}

pub open spec fn br_effect(instr: u16, regs: Seq<u16>) -> Seq<u16> {
    if br_conditions(instr) & regs[R_COND as int] != 0 {
        regs.update(R_PC as int, pc_relative(instr, regs))
    } else {
        regs
    }
}

/// BR: when one of the selected conditions holds, PC += offset9; flags unchanged.
pub fn op_br(instr: u16, register: &mut Registers) -> (r: Result<(), RegisterError>)
    ensures
        r is Ok,
        final(register)@ == br_effect(instr, old(register)@),
{
    let pc_offset = sign_extend(instr & 0x1FF, 9);
    let cond_flag = (instr >> 9) & 0x7;
    if cond_flag & register.get_cond() != 0 {
        let target = compute_effective_address(register.get_pc(), pc_offset);
        register.update_pc(target);
    }
    Ok(())
}

pub open spec fn jmp_effect(instr: u16, regs: Seq<u16>) -> Seq<u16> {
    regs.update(R_PC as int, regs[sr1(instr) as int])
}

/// JMP: PC = base register (RET when the base is R7).
pub fn op_jmp(instr: u16, register: &mut Registers) -> (r: Result<(), RegisterError>)
    ensures
        r is Ok,
        final(register)@ == jmp_effect(instr, old(register)@),
{
    proof {
        lemma_fields(instr);
    }
    let r1 = (instr >> 6) & 0x7;
    let target = register.get(r1)?;
    register.update_pc(target);
    Ok(())
}

/// Whether JSR takes an 11-bit offset rather than a base register (bit 11).
pub open spec fn long_mode(instr: u16) -> bool {
    (instr >> 11) & 1 == 1
}

pub open spec fn jsr_effect(instr: u16, regs: Seq<u16>) -> Seq<u16> {
    let linked = regs.update(7, regs[R_PC as int]);
    if long_mode(instr) {
        linked.update(R_PC as int, wrap16(regs[R_PC as int] + offset11(instr)))
    } else {
        linked.update(R_PC as int, linked[sr1(instr) as int])
    }
}

/// JSR / JSRR: R7 = PC; then PC += offset11, or PC = base register (read
/// after the link is written).
pub fn op_jsr(instr: u16, register: &mut Registers) -> (r: Result<(), RegisterError>)
    ensures
        r is Ok,
        final(register)@ == jsr_effect(instr, old(register)@),
{
    proof {
        lemma_fields(instr);
    }
    let long_flag = (instr >> 11) & 1;
    let r1 = (instr >> 6) & 0x7;
    let pc = register.get_pc();
    register.update(7, pc)?;
    if long_flag == 1 {
        let long_pc_offset = sign_extend(instr & 0x7FF, 11);
        register.update_pc(compute_effective_address(pc, long_pc_offset));
    } else {
        let target = register.get(r1)?;
        register.update_pc(target);
    }
    Ok(())
}

pub open spec fn lea_effect(instr: u16, regs: Seq<u16>) -> Seq<u16> {
    flagged(regs, dr(instr), pc_relative(instr, regs))
}

/// LEA: DR = PC + offset9 (the address itself); sets the flags.
pub fn op_lea(instr: u16, register: &mut Registers) -> (r: Result<(), RegisterError>)
    ensures
        r is Ok,
        final(register)@ == lea_effect(instr, old(register)@),
{
    proof {
        lemma_fields(instr);
    }
    let r0 = (instr >> 9) & 0x7;
    let pc_offset = sign_extend(instr & 0x1FF, 9);
    let value = compute_effective_address(register.get_pc(), pc_offset);
    register.update(r0, value)?;
    update_flags(r0, register)?;
    Ok(())
}

pub open spec fn ld_effect(instr: u16, regs: Seq<u16>, m: (Seq<u16>, Seq<u8>)) -> (
    Seq<u16>,
    (Seq<u16>, Seq<u8>),
) {
    let a = pc_relative(instr, regs);
    (flagged(regs, dr(instr), read_value(a, m)), after_read(a, m))
}

/// LD: DR = memory[PC + offset9]; sets the flags.
pub fn op_ld(instr: u16, register: &mut Registers, memory: &mut Memory) -> (r: Result<
    (),
    RegisterError,
>)
    requires
        old(memory).wf(),
    ensures
        r is Ok,
        final(memory).wf(),
        (final(register)@, final(memory)@) == ld_effect(instr, old(register)@, old(memory)@),
{
    proof {
        lemma_fields(instr);
    }
    let r0 = (instr >> 9) & 0x7;
    let pc_offset = sign_extend(instr & 0x1FF, 9);
    let address = compute_effective_address(register.get_pc(), pc_offset);
    let value = mem_read(address, memory);
    register.update(r0, value)?;
    update_flags(r0, register)?;
    Ok(())
}

/// The address that LDI and STI reach through the pointer at PC + offset9,
/// as the pointer read leaves memory.
pub open spec fn indirect_address(instr: u16, regs: Seq<u16>, m: (Seq<u16>, Seq<u8>)) -> u16 {
    read_value(pc_relative(instr, regs), m)
}

pub open spec fn ldi_effect(instr: u16, regs: Seq<u16>, m: (Seq<u16>, Seq<u8>)) -> (
    Seq<u16>,
    (Seq<u16>, Seq<u8>),
) {
    let first = after_read(pc_relative(instr, regs), m);
    let target = indirect_address(instr, regs, m);
    (flagged(regs, dr(instr), read_value(target, first)), after_read(target, first))
}

/// LDI: DR = memory[memory[PC + offset9]]; sets the flags.
pub fn op_ldi(instr: u16, register: &mut Registers, memory: &mut Memory) -> (r: Result<
    (),
    RegisterError,
>)
    requires
        old(memory).wf(),
    ensures
        r is Ok,
        final(memory).wf(),
        (final(register)@, final(memory)@) == ldi_effect(instr, old(register)@, old(memory)@),
{
    proof {
        lemma_fields(instr);
    }
    let r0 = (instr >> 9) & 0x7;
    let pc_offset = sign_extend(instr & 0x1FF, 9);
    let pointer = compute_effective_address(register.get_pc(), pc_offset);
    let target = mem_read(pointer, memory);
    let value = mem_read(target, memory);
    register.update(r0, value)?;
    update_flags(r0, register)?;
    Ok(())
}

pub open spec fn ldr_effect(instr: u16, regs: Seq<u16>, m: (Seq<u16>, Seq<u8>)) -> (
    Seq<u16>,
    (Seq<u16>, Seq<u8>),
) {
    let a = base_relative(instr, regs);
    (flagged(regs, dr(instr), read_value(a, m)), after_read(a, m))
}

/// LDR: DR = memory[base + offset6]; sets the flags.
pub fn op_ldr(instr: u16, register: &mut Registers, memory: &mut Memory) -> (r: Result<
    (),
    RegisterError,
>)
    requires
        old(memory).wf(),
    ensures
        r is Ok,
        final(memory).wf(),
        (final(register)@, final(memory)@) == ldr_effect(instr, old(register)@, old(memory)@),
{
    proof {
        lemma_fields(instr);
    }
    let r0 = (instr >> 9) & 0x7;
    let r1 = (instr >> 6) & 0x7;
    let offset = sign_extend(instr & 0x3F, 6);
    let address = compute_effective_address(register.get(r1)?, offset);
    let value = mem_read(address, memory);
    register.update(r0, value)?;
    update_flags(r0, register)?;
    Ok(())
}

pub open spec fn st_effect(instr: u16, regs: Seq<u16>, m: (Seq<u16>, Seq<u8>)) -> (
    Seq<u16>,
    (Seq<u16>, Seq<u8>),
) {
    (regs, (m.0.update(pc_relative(instr, regs) as int, regs[dr(instr) as int]), m.1))
}

/// ST: memory[PC + offset9] = SR.
pub fn op_st(instr: u16, register: &mut Registers, memory: &mut Memory) -> (r: Result<
    (),
    RegisterError,
>)
    requires
        old(memory).wf(),
    ensures
        r is Ok,
        final(memory).wf(),
        (final(register)@, final(memory)@) == st_effect(instr, old(register)@, old(memory)@),
{
    proof {
        lemma_fields(instr);
    }
    let r0 = (instr >> 9) & 0x7;
    let pc_offset = sign_extend(instr & 0x1FF, 9);
    let address = compute_effective_address(register.get_pc(), pc_offset);
    mem_write(address, register.get(r0)?, memory);
    Ok(())
}

pub open spec fn sti_effect(instr: u16, regs: Seq<u16>, m: (Seq<u16>, Seq<u8>)) -> (
    Seq<u16>,
    (Seq<u16>, Seq<u8>),
) {
    let first = after_read(pc_relative(instr, regs), m);
    let target = indirect_address(instr, regs, m);
    (regs, (first.0.update(target as int, regs[dr(instr) as int]), first.1))
}

/// STI: memory[memory[PC + offset9]] = SR.
pub fn op_sti(instr: u16, register: &mut Registers, memory: &mut Memory) -> (r: Result<
    (),
    RegisterError,
>)
    requires
        old(memory).wf(),
    ensures
        r is Ok,
        final(memory).wf(),
        (final(register)@, final(memory)@) == sti_effect(instr, old(register)@, old(memory)@),
{
    proof {
        lemma_fields(instr);
    }
    let r0 = (instr >> 9) & 0x7;
    let pc_offset = sign_extend(instr & 0x1FF, 9);
    let pointer = compute_effective_address(register.get_pc(), pc_offset);
    let target = mem_read(pointer, memory);
    mem_write(target, register.get(r0)?, memory);
    Ok(())
}

pub open spec fn str_effect(instr: u16, regs: Seq<u16>, m: (Seq<u16>, Seq<u8>)) -> (
    Seq<u16>,
    (Seq<u16>, Seq<u8>),
) {
    (regs, (m.0.update(base_relative(instr, regs) as int, regs[dr(instr) as int]), m.1))
}

/// STR: memory[base + offset6] = SR.
pub fn op_str(instr: u16, register: &mut Registers, memory: &mut Memory) -> (r: Result<
    (),
    RegisterError,
>)
    requires
        old(memory).wf(),
    ensures
        r is Ok,
        final(memory).wf(),
        (final(register)@, final(memory)@) == str_effect(instr, old(register)@, old(memory)@),
{
    proof {
        lemma_fields(instr);
    }
    let r0 = (instr >> 9) & 0x7;
    let r1 = (instr >> 6) & 0x7;
    let offset = sign_extend(instr & 0x3F, 6);
    let address = compute_effective_address(register.get(r1)?, offset);
    mem_write(address, register.get(r0)?, memory);
    Ok(())
}

} // verus!
