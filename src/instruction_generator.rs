//! Encoding of resolved instructions into 16-bit machine words.
use vstd::prelude::*;
use crate::error::{view_result, ErrorKind, ErrorKindView};
use crate::isa::{code_for, Form, Opcode};
use crate::syntax_tree::{is_resolved, Instruction, Parameter, ParameterView, ValueType, ValueTypeView};

verus! {

/// The word of an operation code and an operand byte: the code in the high
/// byte, the operand in the low byte.
pub open spec fn word(code: u8, operand: u8) -> u16 {
    (code as int * 256 + operand as int) as u16
}

/// The operation code held by a word.
pub open spec fn code_of_word(w: u16) -> u8 {
    (w / 256) as u8
}

/// The operand byte held by a word.
pub open spec fn operand_of_word(w: u16) -> u8 {
    (w % 256) as u8
}

/// The form in which a parameter gives its operand.
pub open spec fn form_of(p: ParameterView) -> Form {
    match p {
        ParameterView::Acc => Form::Accumulator,
        ParameterView::Value(v) => if v.direct {
            Form::Direct
        } else {
            Form::Indirect
        },
    }
}

/// The operand byte of a resolved parameter (0 for the accumulator).
pub open spec fn operand_of(p: ParameterView) -> u8 {
    match p {
        ParameterView::Value(v) => match v.value_type {
            ValueTypeView::Raw(b) => b,
            _ => 0,
        },
        ParameterView::Acc => 0,
    }
}

/// Why `op` refuses a single parameter in form `form`: the wrong kind of
/// parameter, or the right kind with the wrong addressing mode.
pub open spec fn form_error(op: Opcode, form: Form) -> ErrorKindView {
    match form {
        Form::Direct => if code_for(op, Form::Indirect) is Some {
            ErrorKindView::AddressingMode(op)
        } else {
            ErrorKindView::ParameterKind(op)
        },
        Form::Indirect => if code_for(op, Form::Direct) is Some {
            ErrorKindView::AddressingMode(op)
        } else {
            ErrorKindView::ParameterKind(op)
        },
        _ => ErrorKindView::ParameterKind(op),
    }
}

/// The word of an opcode with its resolved parameters: the opcodes without
/// operand take no parameter, every other takes exactly one, in one of the
/// forms it has a code for.
pub open spec fn encoding(op: Opcode, params: Seq<ParameterView>) -> Result<u16, ErrorKindView> {
    if params.len() == 0 {
        match code_for(op, Form::NoOperand) {
            Some(c) => Ok(word(c, 0)),
            None => Err(ErrorKindView::ParameterCount(op)),
        }
    } else if params.len() > 1 {
        Err(ErrorKindView::ParameterCount(op))
    } else {
        match code_for(op, form_of(params[0])) {
            Some(c) => Ok(word(c, operand_of(params[0]))),
            None => if code_for(op, Form::NoOperand) is Some {
                Err(ErrorKindView::ParameterCount(op))
            } else {
                Err(form_error(op, form_of(params[0])))
            },
        }
    }
}

/// The word of an operation code and an operand byte.
pub fn make_word(code: u8, operand: u8) -> (r: u16)
    ensures
        r == word(code, operand),
        code_of_word(r) == code,
        operand_of_word(r) == operand,
{
    (code as u16) * 256 + operand as u16
}

fn form_error_of(op: Opcode, form: Form) -> (r: ErrorKind)
    ensures
        r@ == form_error(op, form),
{
    match form {
        Form::Direct => if op.code(Form::Indirect).is_some() {
            ErrorKind::AddressingMode(op)
        } else {
            ErrorKind::ParameterKind(op)
        },
        Form::Indirect => if op.code(Form::Direct).is_some() {
            ErrorKind::AddressingMode(op)
        } else {
            ErrorKind::ParameterKind(op)
        },
        _ => ErrorKind::ParameterKind(op),
    }
}

/// Encodes a resolved instruction as a machine word, or says why its
/// parameters are illegal for its opcode.
pub fn generate_instruction(instruction: &Instruction) -> (r: Result<u16, ErrorKind>)
    requires
        forall|j: int|
            0 <= j < instruction@.params.len() ==> is_resolved(#[trigger] instruction@.params[j]),
    ensures
        view_result(r) == encoding(instruction@.opcode, instruction@.params),
{
    let op = instruction.opcode;
    let n = instruction.param.len();
    if n == 0 {
        match op.code(Form::NoOperand) {
            Some(c) => Ok(make_word(c, 0)),
            None => Err(ErrorKind::ParameterCount(op)),
        }
    } else if n > 1 {
        Err(ErrorKind::ParameterCount(op))
    } else {
        let ghost p = instruction@.params[0];
        assert(p == instruction.param@[0]@);
        let (form, operand) = match &instruction.param[0] {
            Parameter::Acc => (Form::Accumulator, 0u8),
            Parameter::Value(v) => {
                let operand = match &v.value_type {
                    ValueType::Raw(b) => *b,
                    _ => 0u8,
                };
                if v.direct {
                    (Form::Direct, operand)
                } else {
                    (Form::Indirect, operand)
                }
            },
        };
        assert(form == form_of(p) && operand == operand_of(p));
        match op.code(form) {
            Some(c) => Ok(make_word(c, operand)),
            None => if op.code(Form::NoOperand).is_some() {
                Err(ErrorKind::ParameterCount(op))
            } else {
                Err(form_error_of(op, form))
            },
        }
    }
}

} // verus!
