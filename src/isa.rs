//! The instruction set: mnemonics, operand forms, and the operation code of
//! every legal (opcode, form) pair, in both directions.
use vstd::prelude::*;

verus! {

/// The mnemonics of the machine.
#[derive(Clone, Copy, Debug, PartialEq, Eq, Structural)]
pub enum Opcode {
    St,
    Ld,
    And,
    Or,
    Xor,
    Rol,
    Ror,
    Add,
    Adc,
    Neg,
    Inc,
    Dec,
    Setc,
    Clrc,
    Trfnc,
    Bz0,
    Bz1,
    Bc0,
    Bc1,
    Bv0,
    Bv1,
    Bn0,
    Bn1,
    Bra,
    Nop,
}

/// How an instruction takes its operand.
#[derive(Clone, Copy, Debug, PartialEq, Eq, Structural)]
pub enum Form {
    /// No parameter at all.
    NoOperand,
    /// The accumulator.
    Accumulator,
    /// The operand byte itself (an immediate value, or a jump target).
    Direct,
    /// The RAM cell whose address is the operand byte.
    Indirect,
}

/// The operation code of `op` taking its operand in form `form`, if that form is legal.
pub open spec fn code_for(op: Opcode, form: Form) -> Option<u8> {
    match (op, form) {
        (Opcode::St, Form::Indirect) => Some(0x01u8),
        (Opcode::Ld, Form::Direct) => Some(0x02u8),
        (Opcode::Ld, Form::Indirect) => Some(0x03u8),
        (Opcode::And, Form::Direct) => Some(0x04u8),
        (Opcode::And, Form::Indirect) => Some(0x05u8),
        (Opcode::Or, Form::Direct) => Some(0x06u8),
        (Opcode::Or, Form::Indirect) => Some(0x07u8),
        (Opcode::Xor, Form::Direct) => Some(0x08u8),
        (Opcode::Xor, Form::Indirect) => Some(0x09u8),
        (Opcode::Rol, Form::Accumulator) => Some(0x0Au8),
        (Opcode::Ror, Form::Accumulator) => Some(0x0Bu8),
        (Opcode::Add, Form::Direct) => Some(0x0Cu8),
        (Opcode::Add, Form::Indirect) => Some(0x0Du8),
        (Opcode::Adc, Form::Direct) => Some(0x0Eu8),
        (Opcode::Adc, Form::Indirect) => Some(0x0Fu8),
        (Opcode::Neg, Form::Accumulator) => Some(0x10u8),
        (Opcode::Neg, Form::Direct) => Some(0x11u8),
        (Opcode::Neg, Form::Indirect) => Some(0x12u8),
        (Opcode::Inc, Form::Accumulator) => Some(0x13u8),
        (Opcode::Inc, Form::Indirect) => Some(0x14u8),
        (Opcode::Dec, Form::Accumulator) => Some(0x15u8),
        (Opcode::Dec, Form::Indirect) => Some(0x16u8),
        (Opcode::Setc, Form::NoOperand) => Some(0x17u8),
        (Opcode::Clrc, Form::NoOperand) => Some(0x18u8),
        (Opcode::Trfnc, Form::NoOperand) => Some(0x19u8),
        (Opcode::Bz0, Form::Direct) => Some(0x1Au8),
        (Opcode::Bz1, Form::Direct) => Some(0x1Bu8),
        (Opcode::Bc0, Form::Direct) => Some(0x1Cu8),
        (Opcode::Bc1, Form::Direct) => Some(0x1Du8),
        (Opcode::Bv0, Form::Direct) => Some(0x1Eu8),
        (Opcode::Bv1, Form::Direct) => Some(0x1Fu8),
        (Opcode::Bn0, Form::Direct) => Some(0x20u8),
        (Opcode::Bn1, Form::Direct) => Some(0x21u8),
        (Opcode::Bra, Form::Direct) => Some(0x22u8),
        (Opcode::Nop, Form::NoOperand) => Some(0x3Fu8),
        _ => None,
    }
}

/// The instruction that an operation code stands for, and its operand form.
pub open spec fn decode_code(code: u8) -> Option<(Opcode, Form)> {
    match code {
        0x01u8 => Some((Opcode::St, Form::Indirect)),
        0x02u8 => Some((Opcode::Ld, Form::Direct)),
        0x03u8 => Some((Opcode::Ld, Form::Indirect)),
        0x04u8 => Some((Opcode::And, Form::Direct)),
        0x05u8 => Some((Opcode::And, Form::Indirect)),
        0x06u8 => Some((Opcode::Or, Form::Direct)),
        0x07u8 => Some((Opcode::Or, Form::Indirect)),
        0x08u8 => Some((Opcode::Xor, Form::Direct)),
        0x09u8 => Some((Opcode::Xor, Form::Indirect)),
        0x0Au8 => Some((Opcode::Rol, Form::Accumulator)),
        0x0Bu8 => Some((Opcode::Ror, Form::Accumulator)),
        0x0Cu8 => Some((Opcode::Add, Form::Direct)),
        0x0Du8 => Some((Opcode::Add, Form::Indirect)),
        0x0Eu8 => Some((Opcode::Adc, Form::Direct)),
        0x0Fu8 => Some((Opcode::Adc, Form::Indirect)),
        0x10u8 => Some((Opcode::Neg, Form::Accumulator)),
        0x11u8 => Some((Opcode::Neg, Form::Direct)),
        0x12u8 => Some((Opcode::Neg, Form::Indirect)),
        0x13u8 => Some((Opcode::Inc, Form::Accumulator)),
        0x14u8 => Some((Opcode::Inc, Form::Indirect)),
        0x15u8 => Some((Opcode::Dec, Form::Accumulator)),
        0x16u8 => Some((Opcode::Dec, Form::Indirect)),
        0x17u8 => Some((Opcode::Setc, Form::NoOperand)),
        0x18u8 => Some((Opcode::Clrc, Form::NoOperand)),
        0x19u8 => Some((Opcode::Trfnc, Form::NoOperand)),
        0x1Au8 => Some((Opcode::Bz0, Form::Direct)),
        0x1Bu8 => Some((Opcode::Bz1, Form::Direct)),
        0x1Cu8 => Some((Opcode::Bc0, Form::Direct)),
        0x1Du8 => Some((Opcode::Bc1, Form::Direct)),
        0x1Eu8 => Some((Opcode::Bv0, Form::Direct)),
        0x1Fu8 => Some((Opcode::Bv1, Form::Direct)),
        0x20u8 => Some((Opcode::Bn0, Form::Direct)),
        0x21u8 => Some((Opcode::Bn1, Form::Direct)),
        0x22u8 => Some((Opcode::Bra, Form::Direct)),
        0x3Fu8 => Some((Opcode::Nop, Form::NoOperand)),
        _ => None,
    }
}

/// The opcodes whose operand is a jump target.
pub open spec fn spec_is_jump(op: Opcode) -> bool {
    match op {
        Opcode::Bz0 | Opcode::Bz1 | Opcode::Bc0 | Opcode::Bc1 | Opcode::Bv0 | Opcode::Bv1
        | Opcode::Bn0 | Opcode::Bn1 | Opcode::Bra => true,
        _ => false,
    }
}

/// The two tables are inverse to each other: every legal pair has a code, and
/// decoding that code gives the pair back; every decodable code is the code of
/// the pair it decodes to.
pub proof fn lemma_codes_round_trip(op: Opcode, form: Form, code: u8)
    ensures
        code_for(op, form) == Some(code) <==> decode_code(code) == Some((op, form)),
{
}

impl Opcode {
    /// The operation code of this opcode in the given form (see `code_for`).
    pub fn code(&self, form: Form) -> (r: Option<u8>)
        ensures
            r == code_for(*self, form),
    {
        match (*self, form) {
            (Opcode::St, Form::Indirect) => Some(0x01u8),
            (Opcode::Ld, Form::Direct) => Some(0x02u8),
            (Opcode::Ld, Form::Indirect) => Some(0x03u8),
            (Opcode::And, Form::Direct) => Some(0x04u8),
            (Opcode::And, Form::Indirect) => Some(0x05u8),
            (Opcode::Or, Form::Direct) => Some(0x06u8),
            (Opcode::Or, Form::Indirect) => Some(0x07u8),
            (Opcode::Xor, Form::Direct) => Some(0x08u8),
            (Opcode::Xor, Form::Indirect) => Some(0x09u8),
            (Opcode::Rol, Form::Accumulator) => Some(0x0Au8),
            (Opcode::Ror, Form::Accumulator) => Some(0x0Bu8),
            (Opcode::Add, Form::Direct) => Some(0x0Cu8),
            (Opcode::Add, Form::Indirect) => Some(0x0Du8),
            (Opcode::Adc, Form::Direct) => Some(0x0Eu8),
            (Opcode::Adc, Form::Indirect) => Some(0x0Fu8),
            (Opcode::Neg, Form::Accumulator) => Some(0x10u8),
            (Opcode::Neg, Form::Direct) => Some(0x11u8),
            (Opcode::Neg, Form::Indirect) => Some(0x12u8),
            (Opcode::Inc, Form::Accumulator) => Some(0x13u8),
            (Opcode::Inc, Form::Indirect) => Some(0x14u8),
            (Opcode::Dec, Form::Accumulator) => Some(0x15u8),
            (Opcode::Dec, Form::Indirect) => Some(0x16u8),
            (Opcode::Setc, Form::NoOperand) => Some(0x17u8),
            (Opcode::Clrc, Form::NoOperand) => Some(0x18u8),
            (Opcode::Trfnc, Form::NoOperand) => Some(0x19u8),
            (Opcode::Bz0, Form::Direct) => Some(0x1Au8),
            (Opcode::Bz1, Form::Direct) => Some(0x1Bu8),
            (Opcode::Bc0, Form::Direct) => Some(0x1Cu8),
            (Opcode::Bc1, Form::Direct) => Some(0x1Du8),
            (Opcode::Bv0, Form::Direct) => Some(0x1Eu8),
            (Opcode::Bv1, Form::Direct) => Some(0x1Fu8),
            (Opcode::Bn0, Form::Direct) => Some(0x20u8),
            (Opcode::Bn1, Form::Direct) => Some(0x21u8),
            (Opcode::Bra, Form::Direct) => Some(0x22u8),
            (Opcode::Nop, Form::NoOperand) => Some(0x3Fu8),
            _ => None,
        }
    }

    /// Whether the operand of this opcode is a jump target.
    pub fn is_jump(&self) -> (r: bool)
        ensures
            r == spec_is_jump(*self),
    {
        match *self {
            Opcode::Bz0 | Opcode::Bz1 | Opcode::Bc0 | Opcode::Bc1 | Opcode::Bv0 | Opcode::Bv1
            | Opcode::Bn0 | Opcode::Bn1 | Opcode::Bra => true,
            _ => false,
        }
    }
}

/// The instruction and operand form of an operation code (see `decode_code`).
pub fn decode(code: u8) -> (r: Option<(Opcode, Form)>)
    ensures
        r == decode_code(code),
{
    match code {
        0x01u8 => Some((Opcode::St, Form::Indirect)),
        0x02u8 => Some((Opcode::Ld, Form::Direct)),
        0x03u8 => Some((Opcode::Ld, Form::Indirect)),
        0x04u8 => Some((Opcode::And, Form::Direct)),
        0x05u8 => Some((Opcode::And, Form::Indirect)),
        0x06u8 => Some((Opcode::Or, Form::Direct)),
        0x07u8 => Some((Opcode::Or, Form::Indirect)),
        0x08u8 => Some((Opcode::Xor, Form::Direct)),
        0x09u8 => Some((Opcode::Xor, Form::Indirect)),
        0x0Au8 => Some((Opcode::Rol, Form::Accumulator)),
        0x0Bu8 => Some((Opcode::Ror, Form::Accumulator)),
        0x0Cu8 => Some((Opcode::Add, Form::Direct)),
        0x0Du8 => Some((Opcode::Add, Form::Indirect)),
        0x0Eu8 => Some((Opcode::Adc, Form::Direct)),
        0x0Fu8 => Some((Opcode::Adc, Form::Indirect)),
        0x10u8 => Some((Opcode::Neg, Form::Accumulator)),
        0x11u8 => Some((Opcode::Neg, Form::Direct)),
        0x12u8 => Some((Opcode::Neg, Form::Indirect)),
        0x13u8 => Some((Opcode::Inc, Form::Accumulator)),
        0x14u8 => Some((Opcode::Inc, Form::Indirect)),
        0x15u8 => Some((Opcode::Dec, Form::Accumulator)),
        0x16u8 => Some((Opcode::Dec, Form::Indirect)),
        0x17u8 => Some((Opcode::Setc, Form::NoOperand)),
        0x18u8 => Some((Opcode::Clrc, Form::NoOperand)),
        0x19u8 => Some((Opcode::Trfnc, Form::NoOperand)),
        0x1Au8 => Some((Opcode::Bz0, Form::Direct)),
        0x1Bu8 => Some((Opcode::Bz1, Form::Direct)),
        0x1Cu8 => Some((Opcode::Bc0, Form::Direct)),
        0x1Du8 => Some((Opcode::Bc1, Form::Direct)),
        0x1Eu8 => Some((Opcode::Bv0, Form::Direct)),
        0x1Fu8 => Some((Opcode::Bv1, Form::Direct)),
        0x20u8 => Some((Opcode::Bn0, Form::Direct)),
        0x21u8 => Some((Opcode::Bn1, Form::Direct)),
        0x22u8 => Some((Opcode::Bra, Form::Direct)),
        0x3Fu8 => Some((Opcode::Nop, Form::NoOperand)),
        _ => None,
    }
}

} // verus!
