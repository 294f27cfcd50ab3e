//! Machine registers and their mapping to DWARF register numbers.

use vstd::prelude::*;

verus! {

/// Class of a machine register: general-purpose integer or vector (XMM).
#[derive(Clone, Copy, Debug, PartialEq, Eq, Structural)]
pub enum RegClass {
    /// 64-bit general-purpose register.
    Int,
    /// 128-bit vector register.
    Vector,
}

/// An x86-64 machine register: a class plus a hardware encoding number.
#[derive(Clone, Copy, Debug, PartialEq, Eq, Structural)]
pub struct Register {
    /// Register class.
    pub class: RegClass,
    /// Hardware encoding, 0 to 15.
    pub hw_enc: u8,
}

/// An error while translating a register to the target unwind format.
#[derive(Clone, Copy, Debug, PartialEq, Eq, Structural)]
pub enum RegisterMappingError {
    /// The register's hardware encoding lies outside the supported bank.
    UnsupportedRegisterBank,
    /// The target architecture is not supported.
    UnsupportedArchitecture,
}

impl Register {
    /// A register is valid when its hardware encoding fits the sixteen
    /// registers of its x86-64 bank.
    pub open spec fn valid(self) -> bool {
        self.hw_enc < 16
    }

    /// Builds a register from a class and a hardware encoding.
    pub fn new(class: RegClass, hw_enc: u8) -> (r: Register)
        ensures
            r == (Register { class, hw_enc }),
    {
        Register { class, hw_enc }
    }
}

/// The stack-pointer register RSP.
pub fn rsp() -> (r: Register)
    ensures
        r == spec_rsp(),
{
    Register { class: RegClass::Int, hw_enc: 4 }
}

/// The frame-pointer register RBP.
pub fn rbp() -> (r: Register)
    ensures
        r == spec_rbp(),
{
    Register { class: RegClass::Int, hw_enc: 5 }
}

/// RSP as a mathematical value.
pub open spec fn spec_rsp() -> Register {
    Register { class: RegClass::Int, hw_enc: 4 }
}

/// RBP as a mathematical value.
pub open spec fn spec_rbp() -> Register {
    Register { class: RegClass::Int, hw_enc: 5 }
}

/// The DWARF number of a valid register, following the x86-64 psABI:
/// the general-purpose bank maps through a lookup table (the hardware
/// order RAX, RCX, RDX, RBX, RSP, RBP, RSI, RDI, R8..R15 is not the
/// DWARF order), and the vector bank maps to 17 + encoding.
pub open spec fn dwarf_reg_num(reg: Register) -> u16
    recommends
        reg.valid(),
{
    match reg.class {
        RegClass::Int => gp_dwarf_num(reg.hw_enc),
        RegClass::Vector => (17 + reg.hw_enc) as u16,
    }
}

/// DWARF numbers of the general-purpose registers, by hardware encoding.
pub open spec fn gp_dwarf_num(hw_enc: u8) -> u16 {
    if hw_enc == 0 {
        0  // RAX
    } else if hw_enc == 1 {
        2  // RCX
    } else if hw_enc == 2 {
        1  // RDX
    } else if hw_enc == 3 {
        3  // RBX
    } else if hw_enc == 4 {
        7  // RSP
    } else if hw_enc == 5 {
        6  // RBP
    } else if hw_enc == 6 {
        4  // RSI
    } else if hw_enc == 7 {
        5  // RDI
    } else {
        hw_enc as u16  // R8 through R15 carry their encoding
    }
}

/// Maps a machine register to its DWARF register number, reporting an
/// error for encodings outside the supported x86-64 banks.
pub fn map_reg(reg: Register) -> (r: Result<u16, RegisterMappingError>)
    ensures
        reg.valid() <==> r is Ok,
        reg.valid() ==> r == Ok::<u16, RegisterMappingError>(dwarf_reg_num(reg)),
        !reg.valid() ==> r == Err::<u16, RegisterMappingError>(
            RegisterMappingError::UnsupportedRegisterBank,
        ),
{
    if reg.hw_enc >= 16 {
        return Err(RegisterMappingError::UnsupportedRegisterBank);
    }
    match reg.class {
        RegClass::Int => {
            let table: [u16; 16] = [0, 2, 1, 3, 7, 6, 4, 5, 8, 9, 10, 11, 12, 13, 14, 15];
            let n = table[reg.hw_enc as usize];
            assert(n == gp_dwarf_num(reg.hw_enc));
            Ok(n)
        }
        RegClass::Vector => Ok(17 + reg.hw_enc as u16),
    }
}

} // verus!
