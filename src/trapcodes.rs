use vstd::prelude::*;
use vstd::string::StringSliceAdditionalSpecFns;

use crate::memory::{after_read, mem_read, read_value, Memory};
use crate::registers::Registers;

verus! {

/// Read a key into R0, without echo.
pub const TRAP_GETC: u16 = 0x20;

/// Write the low byte of R0.
pub const TRAP_OUT: u16 = 0x21;

/// Write the string of one character per word that R0 points to.
pub const TRAP_PUTS: u16 = 0x22;

/// Prompt, read a key into R0 and echo it.
pub const TRAP_IN: u16 = 0x23;

/// Write the string of two characters per word that R0 points to.
pub const TRAP_PUTSP: u16 = 0x24;

/// Stop the machine.
pub const TRAP_HALT: u16 = 0x25;

/// What IN writes before it takes a key.
pub const IN_PROMPT: &'static str = "Enter a  character : ";

/// What HALT writes.
pub const HALT_NOTICE: &'static str = "HALT\n";

/// Line feed, written after the echoed key of IN.
pub const LINE_FEED: u8 = 10;

/// How a trap routine left the machine.
#[derive(Debug, Clone, Copy, PartialEq, Eq, Structural)]
pub enum TrapOutcome {
    /// Execution goes on.
    Continue,
    /// HALT ran: execution stops.
    Halt,
    /// The trap code names no routine: a fault.
    Unknown,
}

/// The trap code: the low eight bits of a TRAP instruction.
pub open spec fn trap_code(trap_vector: u16) -> u16 {
    trap_vector & 0xFF
}

/// Whether the routine for `code` takes a key.
pub open spec fn takes_key(code: u16) -> bool {
    code == TRAP_GETC || code == TRAP_IN
}

/// Memory and output after PUTS writes the string from `addr` on: one
/// character per word, the word's low byte, up to the first zero word, which
/// is read and not written. The string ends at the top of memory at the latest.
pub open spec fn puts_run(addr: int, m: (Seq<u16>, Seq<u8>), out: Seq<u8>) -> (
    (Seq<u16>, Seq<u8>),
    Seq<u8>,
)
    decreases 0x10000 - addr,
{
    if addr < 0 || addr >= 0x10000 {
        (m, out)
    } else {
        let w = read_value(addr as u16, m);
        let next = after_read(addr as u16, m);
        if w == 0 {
            (next, out)
        } else {
            puts_run(addr + 1, next, out.push((w % 256) as u8))
        }
    }
}

/// The characters that a PUTSP word packs: its low byte, then its high byte
/// unless that is zero.
pub open spec fn packed_chars(w: u16) -> Seq<u8> {
    if w / 256 == 0 {
        seq![(w % 256) as u8]
    } else {
        seq![(w % 256) as u8, (w / 256) as u8]
    }
}

/// Memory and output after PUTSP writes the string from `addr` on: two
/// characters per word, up to the first zero word.
pub open spec fn putsp_run(addr: int, m: (Seq<u16>, Seq<u8>), out: Seq<u8>) -> (
    (Seq<u16>, Seq<u8>),
    Seq<u8>,
)
    decreases 0x10000 - addr,
{
    if addr < 0 || addr >= 0x10000 {
        (m, out)
    } else {
        let w = read_value(addr as u16, m);
        let next = after_read(addr as u16, m);
        if w == 0 {
            (next, out)
        } else {
            putsp_run(addr + 1, next, out + packed_chars(w))
        }
    }
}

/// Registers, memory, output and outcome after the routine for `code` runs.
pub open spec fn trap_effect(
    code: u16,
    regs: Seq<u16>,
    m: (Seq<u16>, Seq<u8>),
    out: Seq<u8>,
) -> (Seq<u16>, (Seq<u16>, Seq<u8>), Seq<u8>, TrapOutcome) {
    if code == TRAP_GETC {
        (regs.update(0, m.1[0] as u16), (m.0, m.1.drop_first()), out, TrapOutcome::Continue)
    } else if code == TRAP_OUT {
        (regs, m, out.push((regs[0] % 256) as u8), TrapOutcome::Continue)
    } else if code == TRAP_PUTS {
        let (m2, out2) = puts_run(regs[0] as int, m, out);
        (regs, m2, out2, TrapOutcome::Continue)
    } else if code == TRAP_IN {
        (
            regs.update(0, m.1[0] as u16),
            (m.0, m.1.drop_first()),
            out + IN_PROMPT.spec_bytes() + seq![m.1[0], LINE_FEED],
            TrapOutcome::Continue,
        )
    } else if code == TRAP_PUTSP {
        let (m2, out2) = putsp_run(regs[0] as int, m, out);
        (regs, m2, out2, TrapOutcome::Continue)
    } else if code == TRAP_HALT {
        (regs, m, out + HALT_NOTICE.spec_bytes(), TrapOutcome::Halt)
    } else {
        (regs, m, out, TrapOutcome::Unknown)
    }
}

/// Appends the bytes of `text`.
fn push_text(out: &mut Vec<u8>, text: &str)
    ensures
        final(out)@ == old(out)@ + text.spec_bytes(),
{
    let bytes = text.as_bytes();
    let mut i: usize = 0;
    while i < bytes.len()
        invariant
            i <= bytes@.len(),
            bytes@ == text.spec_bytes(),
            out@ == old(out)@ + bytes@.subrange(0, i as int),
        decreases bytes@.len() - i,
    {
        out.push(bytes[i]);
        i = i + 1;
        assert(bytes@.subrange(0, i as int) =~= bytes@.subrange(0, i - 1) + seq![bytes@[i - 1]]);
    }
    assert(bytes@.subrange(0, i as int) =~= bytes@);
}

/// Takes the oldest pending key.
fn take_key(memory: &mut Memory) -> (r: u8)
    requires
        old(memory).keys@.len() > 0,
    ensures
        r == old(memory).keys@[0],
        final(memory).cells@ == old(memory).cells@,
        final(memory).keys@ == old(memory).keys@.drop_first(),
{
    memory.keys.remove(0)
}

/// PUTS: writes the string of one character per word that starts at `start`.
fn write_word_string(start: u16, memory: &mut Memory, output: &mut Vec<u8>)
    requires
        old(memory).wf(),
    ensures
        final(memory).wf(),
        (final(memory)@, final(output)@) == puts_run(start as int, old(memory)@, old(output)@),
{
    let mut address: u32 = start as u32;
    while address < 0x10000
        invariant_except_break
            puts_run(start as int, old(memory)@, old(output)@) == puts_run(
                address as int,
                memory@,
                output@,
            ),
        invariant
            memory.wf(),
            address <= 0x10000,
        ensures
            memory.wf(),
            puts_run(start as int, old(memory)@, old(output)@) == (memory@, output@),
        decreases 0x10000 - address,
    {
        let value = mem_read(address as u16, memory);
        if value == 0 {
            break;
        }
        output.push((value % 256) as u8);
        address = address + 1;
    }
}

/// PUTSP: writes the string of two characters per word that starts at `start`.
fn write_byte_string(start: u16, memory: &mut Memory, output: &mut Vec<u8>)
    requires
        old(memory).wf(),
    ensures
        final(memory).wf(),
        (final(memory)@, final(output)@) == putsp_run(start as int, old(memory)@, old(output)@),
{
    let mut address: u32 = start as u32;
    while address < 0x10000
        invariant_except_break
            putsp_run(start as int, old(memory)@, old(output)@) == putsp_run(
                address as int,
                memory@,
                output@,
            ),
        invariant
            memory.wf(),
            address <= 0x10000,
        ensures
            memory.wf(),
            putsp_run(start as int, old(memory)@, old(output)@) == (memory@, output@),
        decreases 0x10000 - address,
    {
        let value = mem_read(address as u16, memory);
        if value == 0 {
            break;
        }
        let ghost written = output@;
        let low = (value % 256) as u8;
        let high = (value / 256) as u8;
        output.push(low);
        if high != 0 {
            output.push(high);
        }
        assert(output@ =~= written + packed_chars(value));
        address = address + 1;
    }
}

/// Runs the trap routine that the low eight bits of `trap_vector` select.
/// GETC and IN take the oldest pending key, which must be there, into R0;
/// neither sets the condition register. An unknown code changes nothing and
/// reports `Unknown`.
pub fn execute_trapcodes(
    trap_vector: u16,
    register: &mut Registers,
    memory: &mut Memory,
    output: &mut Vec<u8>,
) -> (r: TrapOutcome)
    requires
        old(memory).wf(),
        takes_key(trap_code(trap_vector)) ==> old(memory).keys@.len() > 0,
    ensures
        final(memory).wf(),
        (final(register)@, final(memory)@, final(output)@, r) == trap_effect(
            trap_code(trap_vector),
            old(register)@,
            old(memory)@,
            old(output)@,
        ),
{
    let code = trap_vector & 0xFF;
    if code == TRAP_GETC {
        let key = take_key(memory);
        register.r_00 = key as u16;
        TrapOutcome::Continue
    } else if code == TRAP_OUT {
        output.push((register.r_00 % 256) as u8);
        TrapOutcome::Continue
    } else if code == TRAP_PUTS {
        write_word_string(register.r_00, memory, output);
        TrapOutcome::Continue
    } else if code == TRAP_IN {
        push_text(output, IN_PROMPT);
        let key = take_key(memory);
        output.push(key);
        output.push(LINE_FEED);
        register.r_00 = key as u16;
        TrapOutcome::Continue
    } else if code == TRAP_PUTSP {
        write_byte_string(register.r_00, memory, output);
        TrapOutcome::Continue
    } else if code == TRAP_HALT {
        push_text(output, HALT_NOTICE);
        TrapOutcome::Halt
    } else {
        TrapOutcome::Unknown
    }
}

} // verus!
