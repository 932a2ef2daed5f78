//! What can go wrong while assembling a program.
use vstd::prelude::*;
use crate::isa::Opcode;

verus! {

/// One assembly error, without the line it was found on.
#[derive(Clone, Debug, PartialEq, Eq)]
pub enum ErrorKind {
    /// The first word of a line is no known mnemonic.
    UnknownInstruction,
    /// A constant declaration without a value.
    MissingConstantValue,
    /// A constant declaration whose value is not a decimal number.
    InvalidConstantValue,
    /// A constant declaration whose value is over 255.
    ConstantTooLarge,
    /// A second constant of the same name.
    DuplicateConstant(String),
    /// A second label of the same name.
    DuplicateLabel(String),
    /// A parameter opened with `[` and not closed with `]`.
    UnclosedBracket,
    /// A numeric parameter over 255.
    ValueTooLarge,
    /// A parameter that follows no parameter syntax.
    InvalidParameter,
    /// A label used with indirect addressing.
    IndirectLabel,
    /// A program of more instructions than the machine can hold.
    TooManyInstructions,
    /// A reference to a constant that is never declared.
    UndefinedConstant(String),
    /// A reference to a label that is never declared.
    UndefinedLabel(String),
    /// An opcode given the wrong number of parameters.
    ParameterCount(Opcode),
    /// An opcode given the accumulator where it needs a value, or the reverse.
    ParameterKind(Opcode),
    /// An opcode given direct addressing where it needs indirect, or the reverse.
    AddressingMode(Opcode),
}

/// The mathematical view of `ErrorKind`: names as character sequences.
pub enum ErrorKindView {
    UnknownInstruction,
    MissingConstantValue,
    InvalidConstantValue,
    ConstantTooLarge,
    DuplicateConstant(Seq<char>),
    DuplicateLabel(Seq<char>),
    UnclosedBracket,
    ValueTooLarge,
    InvalidParameter,
    IndirectLabel,
    TooManyInstructions,
    UndefinedConstant(Seq<char>),
    UndefinedLabel(Seq<char>),
    ParameterCount(Opcode),
    ParameterKind(Opcode),
    AddressingMode(Opcode),
}

impl View for ErrorKind {
    type V = ErrorKindView;

    open spec fn view(&self) -> ErrorKindView {
        match self {
            ErrorKind::UnknownInstruction => ErrorKindView::UnknownInstruction,
            ErrorKind::MissingConstantValue => ErrorKindView::MissingConstantValue,
            ErrorKind::InvalidConstantValue => ErrorKindView::InvalidConstantValue,
            ErrorKind::ConstantTooLarge => ErrorKindView::ConstantTooLarge,
            ErrorKind::DuplicateConstant(n) => ErrorKindView::DuplicateConstant(n@),
            ErrorKind::DuplicateLabel(n) => ErrorKindView::DuplicateLabel(n@),
            ErrorKind::UnclosedBracket => ErrorKindView::UnclosedBracket,
            ErrorKind::ValueTooLarge => ErrorKindView::ValueTooLarge,
            ErrorKind::InvalidParameter => ErrorKindView::InvalidParameter,
            ErrorKind::IndirectLabel => ErrorKindView::IndirectLabel,
            ErrorKind::TooManyInstructions => ErrorKindView::TooManyInstructions,
            ErrorKind::UndefinedConstant(n) => ErrorKindView::UndefinedConstant(n@),
            ErrorKind::UndefinedLabel(n) => ErrorKindView::UndefinedLabel(n@),
            ErrorKind::ParameterCount(op) => ErrorKindView::ParameterCount(*op),
            ErrorKind::ParameterKind(op) => ErrorKindView::ParameterKind(*op),
            ErrorKind::AddressingMode(op) => ErrorKindView::AddressingMode(*op),
        }
    }
}

/// An assembly error and the 1-based source line it was found on.
#[derive(Clone, Debug, PartialEq, Eq)]
pub struct AsmError {
    pub line: usize,
    pub kind: ErrorKind,
}

/// The mathematical view of `AsmError`.
pub struct AsmErrorView {
    pub line: nat,
    pub kind: ErrorKindView,
}

impl View for AsmError {
    type V = AsmErrorView;

    open spec fn view(&self) -> AsmErrorView {
        AsmErrorView { line: self.line as nat, kind: self.kind@ }
    }
}

/// A `Result` seen through the views of its two sides.
pub open spec fn view_result<T: View, E: View>(r: Result<T, E>) -> Result<T::V, E::V> {
    match r {
        Ok(t) => Ok(t@),
        Err(e) => Err(e@),
    }
}

} // verus!
