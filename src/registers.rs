use vstd::prelude::*;

verus! {

/// Address at which execution starts.
pub const PC_START: u16 = 0x3000;

/// Number of addressable registers: R0 to R7, the program counter and the condition register.
pub const REGISTER_COUNT: u16 = 10;

/// Index of the program counter in the register bank.
pub const R_PC: u16 = 8;

/// Index of the condition register in the register bank.
pub const R_COND: u16 = 9;

/// Condition register value after a positive result.
pub const FL_POS: u16 = 1;

/// Condition register value after a zero result.
pub const FL_ZRO: u16 = 2;

/// Condition register value after a negative result.
pub const FL_NEG: u16 = 4;

/// The three mutually exclusive condition flags.
#[derive(Debug, Clone, Copy, PartialEq, Eq, Structural)]
pub enum ConditionFlags {
    POS,
    ZRO,
    NEG,
}

impl ConditionFlags {
    pub open spec fn spec_value(self) -> u16 {
        match self {
            ConditionFlags::POS => FL_POS,
            ConditionFlags::ZRO => FL_ZRO,
            ConditionFlags::NEG => FL_NEG,
        }
    }

    /// The word that the condition register holds when this flag is set.
    pub fn value(&self) -> (r: u16)
        ensures
            r == self.spec_value(),
    {
        match self {
            ConditionFlags::POS => FL_POS,
            ConditionFlags::ZRO => FL_ZRO,
            ConditionFlags::NEG => FL_NEG,
        }
    }
}

/// The flag that a write of `w` to a general-purpose register sets.
pub open spec fn flag_of(w: u16) -> u16 {
    if w == 0 {
        FL_ZRO
    } else if w >= 0x8000 {
        FL_NEG
    } else {
        FL_POS
    }
}

/// A register index outside the bank.
#[derive(Debug, Clone, Copy, PartialEq, Eq, Structural)]
pub enum RegisterError {
    IndexOutOfBound(u16),
}

/// The register bank: eight general-purpose registers, the program counter
/// and the condition register.
#[derive(Debug, Clone, Copy)]
pub struct Registers {
    pub r_00: u16,
    pub r_01: u16,
    pub r_02: u16,
    pub r_03: u16,
    pub r_04: u16,
    pub r_05: u16,
    pub r_06: u16,
    pub r_07: u16,
    /// The program counter.
    pub r_pc: u16,
    /// The condition register.
    pub r_cond: u16,
}

impl View for Registers {
    type V = Seq<u16>;

    /// The bank as ten words, indexed as `get` and `update` index it.
    open spec fn view(&self) -> Seq<u16> {
        seq![
            self.r_00,
            self.r_01,
            self.r_02,
            self.r_03,
            self.r_04,
            self.r_05,
            self.r_06,
            self.r_07,
            self.r_pc,
            self.r_cond,
        ]
    }
}

impl Registers {
    /// The bank as `new` leaves it.
    pub open spec fn new_spec() -> Seq<u16> {
        seq![0u16, 0, 0, 0, 0, 0, 0, 0, PC_START, 0]
    }

    /// All registers zero, but the program counter, which holds `PC_START`.
    pub fn new() -> (r: Registers)
        ensures
            r@ == Registers::new_spec(),
    {
        Registers {
            r_00: 0,
            r_01: 0,
            r_02: 0,
            r_03: 0,
            r_04: 0,
            r_05: 0,
            r_06: 0,
            r_07: 0,
            r_pc: PC_START,
            r_cond: 0,
        }
    }

    /// Writes `value` to the register at `index`.
    pub fn update(&mut self, index: u16, value: u16) -> (r: Result<(), RegisterError>)
        ensures
            index < REGISTER_COUNT ==> r is Ok && final(self)@ == old(self)@.update(
                index as int,
                value,
            ),
            index >= REGISTER_COUNT ==> r == Err::<(), RegisterError>(
                RegisterError::IndexOutOfBound(index),
            ) && final(self)@ == old(self)@,
    {
        match index {
            0 => self.r_00 = value,
            1 => self.r_01 = value,
            2 => self.r_02 = value,
            3 => self.r_03 = value,
            4 => self.r_04 = value,
            5 => self.r_05 = value,
            6 => self.r_06 = value,
            7 => self.r_07 = value,
            8 => self.r_pc = value,
            9 => self.r_cond = value,
            _ => return Err(RegisterError::IndexOutOfBound(index)),
        }
        Ok(())
    }

    /// Writes the condition register.
    pub fn update_cond(&mut self, value: u16)
        ensures
            final(self)@ == old(self)@.update(R_COND as int, value),
    {
        self.r_cond = value;
    }

    /// Reads the register at `index`.
    pub fn get(&self, index: u16) -> (r: Result<u16, RegisterError>)
        ensures
            index < REGISTER_COUNT ==> r == Ok::<u16, RegisterError>(self@[index as int]),
            index >= REGISTER_COUNT ==> r == Err::<u16, RegisterError>(
                RegisterError::IndexOutOfBound(index),
            ),
    {
        match index {
            0 => Ok(self.r_00),
            1 => Ok(self.r_01),
            2 => Ok(self.r_02),
            3 => Ok(self.r_03),
            4 => Ok(self.r_04),
            5 => Ok(self.r_05),
            6 => Ok(self.r_06),
            7 => Ok(self.r_07),
            8 => Ok(self.r_pc),
            9 => Ok(self.r_cond),
            _ => Err(RegisterError::IndexOutOfBound(index)),
        }
    }

    /// The program counter.
    pub fn get_pc(&self) -> (r: u16)
        ensures
            r == self@[R_PC as int],
    {
        self.r_pc
    }

    /// Writes the program counter.
    pub fn update_pc(&mut self, value: u16)
        ensures
            final(self)@ == old(self)@.update(R_PC as int, value),
    {
        self.r_pc = value;
    }

    /// The condition register.
    pub fn get_cond(&self) -> (r: u16)
        ensures
            r == self@[R_COND as int],
    {
        self.r_cond
    }
}

} // verus!
