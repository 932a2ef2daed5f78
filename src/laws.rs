//! Laws that relate the assembler's passes to each other and to the machine.
use vstd::prelude::*;
use crate::emulator::MachineView;
use crate::error::{AsmErrorView, ErrorKindView};
use crate::instruction_generator::{encoding, form_of, operand_of, operand_of_word, word};
use crate::isa::{code_for, lemma_codes_round_trip, spec_is_jump, Form, Opcode};
use crate::parser::{assemble_lines, line_effect, scan};
use crate::syntax_tree::{
    lemma_params_resolved, lemma_program_resolved, resolve_instructions, InstructionView,
    ParameterView, SyntaxTreeView, ValueTypeView, ValueView,
};
use crate::text::{before_comment, words};

verus! {

/// The operand form of an instruction with the given parameters.
pub open spec fn instruction_form(params: Seq<ParameterView>) -> Form {
    if params.len() == 0 {
        Form::NoOperand
    } else {
        form_of(params[0])
    }
}

/// The operand byte of an instruction with the given parameters.
pub open spec fn instruction_operand(params: Seq<ParameterView>) -> u8 {
    if params.len() == 0 {
        0
    } else {
        operand_of(params[0])
    }
}

/// Encoding and execution agree: when the program counter points at the
/// word that an instruction encodes to, the machine decodes that very
/// opcode, form and operand, and one tick has exactly that instruction's effect.
pub proof fn lemma_encoded_instruction_executes(
    op: Opcode,
    params: Seq<ParameterView>,
    s: MachineView,
)
    requires
        s.wf(),
        encoding(op, params) == Ok::<u16, ErrorKindView>(s.current_word()),
    ensures
        s.decoded() == Some((op, instruction_form(params))),
        operand_of_word(s.current_word()) == instruction_operand(params),
        s.step() == s.execute(op, instruction_form(params), instruction_operand(params)),
{
    let form = instruction_form(params);
    let b = instruction_operand(params);
    let c = if params.len() == 0 {
        code_for(op, Form::NoOperand)->0
    } else {
        code_for(op, form_of(params[0]))->0
    };
    assert(s.current_word() == word(c, b));
    assert(word(c, b) / 256 == c && word(c, b) % 256 == b);
    lemma_codes_round_trip(op, form, c);
}

/// Illegal operand forms are rejected, never encoded: `ST` with an
/// immediate operand, `ROL` with any byte operand, and a jump with indirect
/// addressing.
pub proof fn lemma_illegal_forms_rejected(op: Opcode, direct: bool, b: u8)
    ensures
        encoding(
            Opcode::St,
            seq![ParameterView::Value(ValueView { direct: true, value_type: ValueTypeView::Raw(b) })],
        ) == Err::<u16, ErrorKindView>(ErrorKindView::AddressingMode(Opcode::St)),
        encoding(
            Opcode::Rol,
            seq![ParameterView::Value(ValueView { direct, value_type: ValueTypeView::Raw(b) })],
        ) == Err::<u16, ErrorKindView>(ErrorKindView::ParameterKind(Opcode::Rol)),
        spec_is_jump(op) ==> encoding(
            op,
            seq![ParameterView::Value(ValueView { direct: false, value_type: ValueTypeView::Raw(b) })],
        ) == Err::<u16, ErrorKindView>(ErrorKindView::AddressingMode(op)),
{
}

/// A label stands for the address at which it was declared wherever it is
/// used, before its declaration as well as after: in a resolved program,
/// every reference to a label has become that label's address, in the same
/// addressing mode.
pub proof fn lemma_label_reference_resolves(
    prog: Seq<InstructionView>,
    constants: Map<Seq<char>, u8>,
    labels: Map<Seq<char>, u8>,
    i: int,
    j: int,
    direct: bool,
    name: Seq<char>,
)
    requires
        (resolve_instructions(prog, constants, labels) is Ok),
        0 <= i < prog.len(),
        0 <= j < prog[i].params.len(),
        prog[i].params[j] == (ParameterView::Value(
            ValueView { direct, value_type: ValueTypeView::Label(name) },
        )),
    ensures
        labels.contains_key(name),
        resolve_instructions(prog, constants, labels)->Ok_0[i].params[j] == (ParameterView::Value(
            ValueView { direct, value_type: ValueTypeView::Raw(labels[name]) },
        )),
{
    lemma_program_resolved(prog, constants, labels);
    lemma_params_resolved(prog[i].params, constants, labels);
}

/// Carry chaining: `ADC` with Carry set leaves one more in the accumulator
/// (modulo 256) than `ADD` of the same operand with Carry clear.
pub proof fn lemma_carry_chaining(s: MachineView, form: Form, operand: u8)
    requires
        s.wf(),
    ensures
        (MachineView { carry: true, ..s }).execute(Opcode::Adc, form, operand).accumulator == (((
        MachineView { carry: false, ..s }).execute(Opcode::Add, form, operand).accumulator as int
            + 1) % 256) as u8,
{
}

/// A comment does not change the words of a line: whatever follows a `;`
/// is ignored.
pub proof fn lemma_comment_ignored(code: Seq<char>, comment: Seq<char>)
    requires
        forall|i: int| 0 <= i < code.len() ==> code[i] != ';',
    ensures
        words(code + seq![';'] + comment) == words(code),
    decreases code.len(),
{
    lemma_before_comment_of_code(code, comment);
}

proof fn lemma_before_comment_of_code(code: Seq<char>, comment: Seq<char>)
    requires
        forall|i: int| 0 <= i < code.len() ==> code[i] != ';',
    ensures
        before_comment(code + seq![';'] + comment) == code,
        before_comment(code) == code,
    decreases code.len(),
{
    let s = code + seq![';'] + comment;
    if code.len() == 0 {
        assert(s[0] == ';');
    } else {
        assert(s.drop_first() == code.drop_first() + seq![';'] + comment);
        lemma_before_comment_of_code(code.drop_first(), comment);
        assert(seq![code[0]] + code.drop_first() == code);
    }
}

/// A line without words (blank, or only a comment) changes nothing: the
/// program read up to it is the program read up to the line before.
pub proof fn lemma_blank_line_ignored(ls: Seq<Seq<char>>, n: nat)
    requires
        1 <= n,
        words(ls[n - 1]).len() == 0,
    ensures
        scan(ls, n) == scan(ls, (n - 1) as nat),
{
    if let Ok((t, at)) = scan(ls, (n - 1) as nat) {
        assert(line_effect(t, words(ls[n - 1])) == Ok::<_, ErrorKindView>(t));
    }
}

/// A program with its comments cut off and its lines without words left
/// out.
pub open spec fn strip_lines(ls: Seq<Seq<char>>) -> Seq<Seq<char>>
    decreases ls.len(),
{
    if ls.len() == 0 {
        seq![]
    } else if words(ls.last()).len() == 0 {
        strip_lines(ls.drop_last())
    } else {
        strip_lines(ls.drop_last()).push(before_comment(ls.last()))
    }
}

proof fn lemma_before_comment_idempotent(s: Seq<char>)
    ensures
        before_comment(before_comment(s)) == before_comment(s),
    decreases s.len(),
{
    if s.len() > 0 && s[0] != ';' {
        lemma_before_comment_idempotent(s.drop_first());
        let rest = before_comment(s.drop_first());
        assert((seq![s[0]] + rest).drop_first() == rest);
    }
}

/// The first pass over `n` lines reads only those lines.
proof fn lemma_scan_prefix(a: Seq<Seq<char>>, b: Seq<Seq<char>>, n: nat)
    requires
        n <= a.len(),
        n <= b.len(),
        a.subrange(0, n as int) == b.subrange(0, n as int),
    ensures
        scan(a, n) == scan(b, n),
    decreases n,
{
    if n > 0 {
        assert(a.subrange(0, n - 1) == a.subrange(0, n as int).subrange(0, n - 1));
        assert(b.subrange(0, n - 1) == b.subrange(0, n as int).subrange(0, n - 1));
        assert(a[n - 1] == a.subrange(0, n as int)[n - 1]);
        assert(b[n - 1] == b.subrange(0, n as int)[n - 1]);
        lemma_scan_prefix(a, b, (n - 1) as nat);
    }
}

/// Whether two outcomes of the first pass agree on all but line numbers.
spec fn same_program(
    x: Result<(SyntaxTreeView, Seq<nat>), AsmErrorView>,
    y: Result<(SyntaxTreeView, Seq<nat>), AsmErrorView>,
) -> bool {
    match (x, y) {
        (Ok((t1, _)), Ok((t2, _))) => t1 == t2,
        (Err(e1), Err(e2)) => e1.kind == e2.kind,
        _ => false,
    }
}

proof fn lemma_scan_stripped(ls: Seq<Seq<char>>, n: nat)
    requires
        n <= ls.len(),
    ensures
        same_program(
            scan(ls, n),
            scan(strip_lines(ls.subrange(0, n as int)), strip_lines(ls.subrange(0, n as int)).len()),
        ),
    decreases n,
{
    let pre = ls.subrange(0, n as int);
    let st = strip_lines(pre);
    if n > 0 {
        let prev = ls.subrange(0, n - 1);
        let st_prev = strip_lines(prev);
        assert(pre.drop_last() == prev);
        assert(pre.last() == ls[n - 1]);
        lemma_scan_stripped(ls, (n - 1) as nat);
        if words(ls[n - 1]).len() == 0 {
            assert(st == st_prev);
            lemma_blank_line_ignored(ls, n);
        } else {
            let bc = before_comment(ls[n - 1]);
            assert(st == st_prev.push(bc));
            lemma_before_comment_idempotent(ls[n - 1]);
            assert(words(bc) == words(ls[n - 1]));
            assert(st.subrange(0, st_prev.len() as int) == st_prev.subrange(
                0,
                st_prev.len() as int,
            ));
            lemma_scan_prefix(st, st_prev, st_prev.len());
            assert(st[st.len() - 1] == bc);
        }
    }
}

/// Comments and lines without words do not change what a program
/// assembles to: cut every comment off and leave out every blank or
/// comment-only line, and the words are the same, or the error is the same
/// but for its line number.
pub proof fn lemma_comments_and_blank_lines_ignored(ls: Seq<Seq<char>>)
    ensures
        assemble_lines(ls) is Ok <==> assemble_lines(strip_lines(ls)) is Ok,
        assemble_lines(ls) is Ok ==> assemble_lines(ls) == assemble_lines(strip_lines(ls)),
        assemble_lines(ls) is Err ==> assemble_lines(ls)->Err_0.kind == assemble_lines(
            strip_lines(ls),
        )->Err_0.kind,
{
    lemma_scan_stripped(ls, ls.len());
    assert(ls.subrange(0, ls.len() as int) == ls);
}

} // verus!
