//! The assembler: source text to machine words.
use vstd::prelude::*;
use crate::error::{view_result, AsmError, AsmErrorView, ErrorKind, ErrorKindView};
use crate::instruction_generator::{encoding, generate_instruction};
use crate::isa::{spec_is_jump, Opcode};
use crate::syntax_tree::{
    lemma_program_resolved, instructions_view, is_resolved, params_view, resolve_instructions, updates_as, Instruction,
    InstructionView, Parameter, ParameterView, SyntaxTree, SyntaxTreeView, Value, ValueType,
    ValueTypeView, ValueView,
};
use crate::text::{chars_of, copy_range, lines, seqs_view, split_lines, split_words, string_from, words};

verus! {

/// Whether a character is a decimal digit.
pub open spec fn is_digit(c: char) -> bool {
    '0' <= c && c <= '9'
}

/// Whether a text is a decimal number: one or more digits.
pub open spec fn is_number(s: Seq<char>) -> bool {
    s.len() > 0 && forall|i: int| 0 <= i < s.len() ==> is_digit(#[trigger] s[i])
}

/// The value of a text of decimal digits.
pub open spec fn number_value(s: Seq<char>) -> nat
    decreases s.len(),
{
    if s.len() == 0 {
        0
    } else {
        number_value(s.drop_last()) * 10 + (s.last() as nat - '0' as nat) as nat
    }
}

/// The opcode a mnemonic names.
pub open spec fn mnemonic_opcode(w: Seq<char>) -> Option<Opcode> {
    if w == seq!['S', 'T'] {
        Some(Opcode::St)
    } else if w == seq!['L', 'D'] {
        Some(Opcode::Ld)
    } else if w == seq!['A', 'N', 'D'] {
        Some(Opcode::And)
    } else if w == seq!['O', 'R'] {
        Some(Opcode::Or)
    } else if w == seq!['X', 'O', 'R'] {
        Some(Opcode::Xor)
    } else if w == seq!['R', 'O', 'L'] {
        Some(Opcode::Rol)
    } else if w == seq!['R', 'O', 'R'] {
        Some(Opcode::Ror)
    } else if w == seq!['A', 'D', 'D'] {
        Some(Opcode::Add)
    } else if w == seq!['A', 'D', 'C'] {
        Some(Opcode::Adc)
    } else if w == seq!['N', 'E', 'G'] {
        Some(Opcode::Neg)
    } else if w == seq!['I', 'N', 'C'] {
        Some(Opcode::Inc)
    } else if w == seq!['D', 'E', 'C'] {
        Some(Opcode::Dec)
    } else if w == seq!['S', 'E', 'T', 'C'] {
        Some(Opcode::Setc)
    } else if w == seq!['C', 'L', 'R', 'C'] {
        Some(Opcode::Clrc)
    } else if w == seq!['T', 'R', 'F', 'N', 'C'] {
        Some(Opcode::Trfnc)
    } else if w == seq!['B', 'Z', '0'] {
        Some(Opcode::Bz0)
    } else if w == seq!['B', 'Z', '1'] {
        Some(Opcode::Bz1)
    } else if w == seq!['B', 'C', '0'] {
        Some(Opcode::Bc0)
    } else if w == seq!['B', 'C', '1'] {
        Some(Opcode::Bc1)
    } else if w == seq!['B', 'V', '0'] {
        Some(Opcode::Bv0)
    } else if w == seq!['B', 'V', '1'] {
        Some(Opcode::Bv1)
    } else if w == seq!['B', 'N', '0'] {
        Some(Opcode::Bn0)
    } else if w == seq!['B', 'N', '1'] {
        Some(Opcode::Bn1)
    } else if w == seq!['B', 'R', 'A'] {
        Some(Opcode::Bra)
    } else if w == seq!['N', 'O', 'P'] {
        Some(Opcode::Nop)
    } else {
        None
    }
}

/// A numeric operand: a byte, in the given addressing mode.
pub open spec fn number_parameter(direct: bool, s: Seq<char>) -> Result<ParameterView, ErrorKindView> {
    if number_value(s) < 256 {
        Ok(
            ParameterView::Value(
                ValueView { direct, value_type: ValueTypeView::Raw(number_value(s) as u8) },
            ),
        )
    } else {
        Err(ErrorKindView::ValueTooLarge)
    }
}

/// An operand written as a number, a `$constant` or a `:label`.
pub open spec fn operand_parameter(direct: bool, s: Seq<char>) -> Result<ParameterView, ErrorKindView> {
    if is_number(s) {
        number_parameter(direct, s)
    } else if s.len() > 0 && s[0] == '$' {
        Ok(ParameterView::Value(ValueView { direct, value_type: ValueTypeView::Const(s.drop_first()) }))
    } else if s.len() > 0 && s[0] == ':' {
        Ok(ParameterView::Value(ValueView { direct, value_type: ValueTypeView::Label(s.drop_first()) }))
    } else {
        Err(ErrorKindView::InvalidParameter)
    }
}

/// A parameter word of an instruction of opcode `op`:
/// - `ACC` is the accumulator;
/// - `[x]` is operand `x` with indirect addressing;
/// - a number followed by `C` is a constant byte (direct addressing);
/// - a number followed by `A` is an address: a RAM cell (indirect addressing),
///   or for a jump the target itself (direct addressing);
/// - any other word is an operand with direct addressing.
pub open spec fn parameter_of(op: Opcode, t: Seq<char>) -> Result<ParameterView, ErrorKindView> {
    if t == seq!['A', 'C', 'C'] {
        Ok(ParameterView::Acc)
    } else if t.len() > 0 && t[0] == '[' {
        if t.len() >= 2 && t.last() == ']' {
            operand_parameter(false, t.subrange(1, t.len() - 1))
        } else {
            Err(ErrorKindView::UnclosedBracket)
        }
    } else if t.len() > 0 && t.last() == 'C' && is_number(t.drop_last()) {
        number_parameter(true, t.drop_last())
    } else if t.len() > 0 && t.last() == 'A' && is_number(t.drop_last()) {
        number_parameter(spec_is_jump(op), t.drop_last())
    } else {
        operand_parameter(true, t)
    }
}

/// The parameters of an instruction, read in order; the first failure wins.
pub open spec fn parameters_of(op: Opcode, ws: Seq<Seq<char>>) -> Result<Seq<ParameterView>, ErrorKindView>
    decreases ws.len(),
{
    if ws.len() == 0 {
        Ok(seq![])
    } else {
        match parameters_of(op, ws.drop_last()) {
            Err(e) => Err(e),
            Ok(done) => match parameter_of(op, ws.last()) {
                Ok(p) => Ok(done.push(p)),
                Err(e) => Err(e),
            },
        }
    }
}

/// What the words of one line do to the program: nothing for an empty line,
/// a constant declaration `$name value`, a label declaration `:name`, or an
/// instruction, a mnemonic followed by its parameters.
pub open spec fn line_effect(t: SyntaxTreeView, ws: Seq<Seq<char>>) -> Result<SyntaxTreeView, ErrorKindView> {
    if ws.len() == 0 {
        Ok(t)
    } else if ws[0].len() > 0 && ws[0][0] == '$' {
        if ws.len() < 2 {
            Err(ErrorKindView::MissingConstantValue)
        } else if !is_number(ws[1]) {
            Err(ErrorKindView::InvalidConstantValue)
        } else if number_value(ws[1]) >= 256 {
            Err(ErrorKindView::ConstantTooLarge)
        } else {
            t.add_const(ws[0].drop_first(), number_value(ws[1]) as u8)
        }
    } else if ws[0].len() > 0 && ws[0][0] == ':' {
        t.add_label(ws[0].drop_first())
    } else {
        match mnemonic_opcode(ws[0]) {
            None => Err(ErrorKindView::UnknownInstruction),
            Some(op) => match parameters_of(op, ws.drop_first()) {
                Err(e) => Err(e),
                Ok(ps) => t.add_instruction(InstructionView { opcode: op, params: ps }),
            },
        }
    }
}

/// The first pass over the first `n` lines: the program they declare, with
/// the 1-based line of each of its instructions; or the first error, with its line.
pub open spec fn scan(ls: Seq<Seq<char>>, n: nat) -> Result<(SyntaxTreeView, Seq<nat>), AsmErrorView>
    decreases n,
{
    if n == 0 {
        Ok((SyntaxTreeView::empty(), seq![]))
    } else {
        match scan(ls, (n - 1) as nat) {
            Err(e) => Err(e),
            Ok((t, at)) => match line_effect(t, words(ls[n - 1])) {
                Err(k) => Err(AsmErrorView { line: n, kind: k }),
                Ok(t2) => Ok(
                    (
                        t2,
                        if t2.instructions.len() > t.instructions.len() {
                            at.push(n)
                        } else {
                            at
                        },
                    ),
                ),
            },
        }
    }
}

/// The words of resolved instructions, in order; a failure comes with the
/// index of the first instruction that cannot be encoded.
pub open spec fn encode_all(prog: Seq<InstructionView>) -> Result<Seq<u16>, (nat, ErrorKindView)>
    decreases prog.len(),
{
    if prog.len() == 0 {
        Ok(seq![])
    } else {
        match encode_all(prog.drop_last()) {
            Err(e) => Err(e),
            Ok(done) => match encoding(prog.last().opcode, prog.last().params) {
                Ok(w) => Ok(done.push(w)),
                Err(k) => Err(((prog.len() - 1) as nat, k)),
            },
        }
    }
}

/// The machine words of a program given as lines, or the first error and
/// its line: first every line is read, then every symbol is resolved, then
/// every instruction is encoded.
pub open spec fn assemble_lines(ls: Seq<Seq<char>>) -> Result<Seq<u16>, AsmErrorView> {
    match scan(ls, ls.len()) {
        Err(e) => Err(e),
        Ok((t, at)) => match resolve_instructions(t.instructions, t.constants, t.labels) {
            Err((i, k)) => Err(AsmErrorView { line: at[i as int], kind: k }),
            Ok(rs) => match encode_all(rs) {
                Err((i, k)) => Err(AsmErrorView { line: at[i as int], kind: k }),
                Ok(ws) => Ok(ws),
            },
        },
    }
}

/// The machine words of a program text (see `assemble_lines`).
pub open spec fn assemble(text: Seq<char>) -> Result<Seq<u16>, AsmErrorView> {
    assemble_lines(lines(text))
}

/// Once the parameters read so far fail, the whole list fails the same way.
proof fn lemma_parameters_failure_sticks(op: Opcode, ws: Seq<Seq<char>>, k: int)
    requires
        0 <= k <= ws.len(),
        parameters_of(op, ws.subrange(0, k)) is Err,
    ensures
        parameters_of(op, ws) == parameters_of(op, ws.subrange(0, k)),
    decreases ws.len() - k,
{
    if k < ws.len() {
        assert(ws.subrange(0, k + 1).drop_last() == ws.subrange(0, k));
        lemma_parameters_failure_sticks(op, ws, k + 1);
    } else {
        assert(ws.subrange(0, k) == ws);
    }
}

/// Whether a word is exactly the given characters.
fn same(word: &Vec<char>, m: &[char]) -> (r: bool)
    ensures
        r == (word@ == m@),
{
    if word.len() != m.len() {
        return false;
    }
    let mut i: usize = 0;
    while i < m.len()
        invariant
            i <= m.len(),
            word.len() == m.len(),
            forall|k: int| 0 <= k < i ==> word@[k] == m@[k],
        decreases m.len() - i,
    {
        if word[i] != m[i] {
            return false;
        }
        i += 1;
    }
    assert(word@ == m@);
    true
}

/// The value of a decimal number, capped at 256; `None` when the text is
/// not a decimal number.
fn decimal(s: &Vec<char>) -> (r: Option<u16>)
    ensures
        r is Some <==> is_number(s@),
        r is Some ==> r->0 == (if number_value(s@) < 256 {
            number_value(s@)
        } else {
            256
        }),
{
    if s.len() == 0 {
        return None;
    }
    let mut v: u16 = 0;
    let mut i: usize = 0;
    assert(s@.subrange(0, 0) == Seq::<char>::empty());
    while i < s.len()
        invariant
            0 < s.len(),
            i <= s.len(),
            forall|k: int| 0 <= k < i ==> is_digit(#[trigger] s@[k]),
            v == (if number_value(s@.subrange(0, i as int)) < 256 {
                number_value(s@.subrange(0, i as int))
            } else {
                256
            }),
        decreases s.len() - i,
    {
        let c = s[i];
        if !('0' <= c && c <= '9') {
            assert(!is_digit(s@[i as int]));
            return None;
        }
        let d = (c as u32 - '0' as u32) as u16;
        assert(s@.subrange(0, i + 1).drop_last() == s@.subrange(0, i as int));
        assert(s@.subrange(0, i + 1).last() == c);
        assert(d == (c as nat - '0' as nat));
        if v >= 256 {
            v = 256;
        } else {
            let n = v * 10 + d;
            v = if n > 256 {
                256
            } else {
                n
            };
        }
        i += 1;
    }
    assert(s@.subrange(0, s@.len() as int) == s@);
    Some(v)
}

/// The opcode a mnemonic names (see `mnemonic_opcode`).
fn parse_instruction(word: &Vec<char>) -> (r: Option<Opcode>)
    ensures
        r == mnemonic_opcode(word@),
{
    if same(word, &['S', 'T']) {
        Some(Opcode::St)
    } else if same(word, &['L', 'D']) {
        Some(Opcode::Ld)
    } else if same(word, &['A', 'N', 'D']) {
        Some(Opcode::And)
    } else if same(word, &['O', 'R']) {
        Some(Opcode::Or)
    } else if same(word, &['X', 'O', 'R']) {
        Some(Opcode::Xor)
    } else if same(word, &['R', 'O', 'L']) {
        Some(Opcode::Rol)
    } else if same(word, &['R', 'O', 'R']) {
        Some(Opcode::Ror)
    } else if same(word, &['A', 'D', 'D']) {
        Some(Opcode::Add)
    } else if same(word, &['A', 'D', 'C']) {
        Some(Opcode::Adc)
    } else if same(word, &['N', 'E', 'G']) {
        Some(Opcode::Neg)
    } else if same(word, &['I', 'N', 'C']) {
        Some(Opcode::Inc)
    } else if same(word, &['D', 'E', 'C']) {
        Some(Opcode::Dec)
    } else if same(word, &['S', 'E', 'T', 'C']) {
        Some(Opcode::Setc)
    } else if same(word, &['C', 'L', 'R', 'C']) {
        Some(Opcode::Clrc)
    } else if same(word, &['T', 'R', 'F', 'N', 'C']) {
        Some(Opcode::Trfnc)
    } else if same(word, &['B', 'Z', '0']) {
        Some(Opcode::Bz0)
    } else if same(word, &['B', 'Z', '1']) {
        Some(Opcode::Bz1)
    } else if same(word, &['B', 'C', '0']) {
        Some(Opcode::Bc0)
    } else if same(word, &['B', 'C', '1']) {
        Some(Opcode::Bc1)
    } else if same(word, &['B', 'V', '0']) {
        Some(Opcode::Bv0)
    } else if same(word, &['B', 'V', '1']) {
        Some(Opcode::Bv1)
    } else if same(word, &['B', 'N', '0']) {
        Some(Opcode::Bn0)
    } else if same(word, &['B', 'N', '1']) {
        Some(Opcode::Bn1)
    } else if same(word, &['B', 'R', 'A']) {
        Some(Opcode::Bra)
    } else if same(word, &['N', 'O', 'P']) {
        Some(Opcode::Nop)
    } else {
        None
    }
}

/// A numeric operand from its capped value (see `number_parameter`).
fn number_param(direct: bool, value: u16, Ghost(s): Ghost<Seq<char>>) -> (r: Result<Parameter, ErrorKind>)
    requires
        value == (if number_value(s) < 256 {
            number_value(s)
        } else {
            256
        }),
    ensures
        view_result(r) == number_parameter(direct, s),
{
    if value < 256 {
        Ok(Parameter::Value(Value::new(direct, ValueType::Raw(value as u8))))
    } else {
        Err(ErrorKind::ValueTooLarge)
    }
}

/// An operand written as a number, a `$constant` or a `:label` (see
/// `operand_parameter`).
fn operand_param(direct: bool, s: &Vec<char>) -> (r: Result<Parameter, ErrorKind>)
    ensures
        view_result(r) == operand_parameter(direct, s@),
{
    match decimal(s) {
        Some(value) => number_param(direct, value, Ghost(s@)),
        None => {
            if s.len() > 0 && s[0] == '$' {
                let name = string_from(s, 1);
                assert(s@.subrange(1, s@.len() as int) == s@.drop_first());
                Ok(Parameter::Value(Value::new(direct, ValueType::Const(name))))
            } else if s.len() > 0 && s[0] == ':' {
                let name = string_from(s, 1);
                assert(s@.subrange(1, s@.len() as int) == s@.drop_first());
                Ok(Parameter::Value(Value::new(direct, ValueType::Label(name))))
            } else {
                Err(ErrorKind::InvalidParameter)
            }
        },
    }
}

/// Reads one parameter word of an instruction of opcode `op` (see `parameter_of`).
fn parse_parameter(op: Opcode, word: &Vec<char>) -> (r: Result<Parameter, ErrorKind>)
    ensures
        view_result(r) == parameter_of(op, word@),
{
    let n = word.len();
    if same(word, &['A', 'C', 'C']) {
        return Ok(Parameter::Acc);
    }
    if n > 0 && word[0] == '[' {
        if n >= 2 && word[n - 1] == ']' {
            let inner = copy_range(word, 1, n - 1);
            return operand_param(false, &inner);
        } else {
            return Err(ErrorKind::UnclosedBracket);
        }
    }
    if n > 0 && (word[n - 1] == 'C' || word[n - 1] == 'A') {
        let digits = copy_range(word, 0, n - 1);
        assert(digits@ == word@.drop_last());
        if let Some(value) = decimal(&digits) {
            let direct = if word[n - 1] == 'C' {
                true
            } else {
                op.is_jump()
            };
            return number_param(direct, value, Ghost(digits@));
        }
    }
    operand_param(true, word)
}

/// Reads the words of one line into the program (see `line_effect`).
fn parse_line(ws: &Vec<Vec<char>>, syntax_tree: &mut SyntaxTree) -> (r: Result<(), ErrorKind>)
    ensures
        updates_as(r, old(syntax_tree)@, final(syntax_tree)@, line_effect(old(syntax_tree)@, seqs_view(ws@))),
{
    let ghost wv = seqs_view(ws@);
    if ws.len() == 0 {
        return Ok(());
    }
    let first = &ws[0];
    assert(wv[0] == first@);
    if first.len() > 0 && first[0] == '$' {
        if ws.len() < 2 {
            return Err(ErrorKind::MissingConstantValue);
        }
        assert(wv[1] == ws@[1]@);
        match decimal(&ws[1]) {
            None => Err(ErrorKind::InvalidConstantValue),
            Some(value) => {
                if value >= 256 {
                    Err(ErrorKind::ConstantTooLarge)
                } else {
                    let name = string_from(first, 1);
                    assert(first@.subrange(1, first@.len() as int) == first@.drop_first());
                    syntax_tree.add_const(name.as_str(), value as u8)
                }
            },
        }
    } else if first.len() > 0 && first[0] == ':' {
        let name = string_from(first, 1);
        assert(first@.subrange(1, first@.len() as int) == first@.drop_first());
        syntax_tree.add_label(name.as_str())
    } else {
        match parse_instruction(first) {
            None => Err(ErrorKind::UnknownInstruction),
            Some(op) => {
                let ghost rest = wv.drop_first();
                let mut parameters: Vec<Parameter> = Vec::new();
                let mut k: usize = 1;
                assert(rest.subrange(0, 0) == Seq::<Seq<char>>::empty());
                assert(params_view(parameters@) == Seq::<ParameterView>::empty());
                while k < ws.len()
                    invariant
                        1 <= k <= ws.len(),
                        wv == seqs_view(ws@),
                        rest == wv.drop_first(),
                        mnemonic_opcode(wv[0]) == Some(op),
                        !(wv[0].len() > 0 && wv[0][0] == '$'),
                        !(wv[0].len() > 0 && wv[0][0] == ':'),
                        syntax_tree@ == old(syntax_tree)@,
                        parameters_of(op, rest.subrange(0, k - 1)) == Ok::<
                            Seq<ParameterView>,
                            ErrorKindView,
                        >(params_view(parameters@)),
                    decreases ws.len() - k,
                {
                    assert(rest.subrange(0, k as int).drop_last() == rest.subrange(0, k - 1));
                    assert(rest.subrange(0, k as int).last() == ws@[k as int]@);
                    match parse_parameter(op, &ws[k]) {
                        Ok(parameter) => {
                            let ghost before = parameters@;
                            parameters.push(parameter);
                            assert(params_view(parameters@) == params_view(before).push(
                                parameter@,
                            ));
                        },
                        Err(error) => {
                            proof {
                                assert(parameters_of(op, rest.subrange(0, k as int)) == Err::<
                                    Seq<ParameterView>,
                                    ErrorKindView,
                                >(error@));
                                lemma_parameters_failure_sticks(op, rest, k as int);
                            }
                            return Err(error);
                        },
                    }
                    k += 1;
                }
                assert(rest.subrange(0, rest.len() as int) == rest);
                let instruction = Instruction::new(op, parameters);
                syntax_tree.add_instruction(instruction)
            },
        }
    }
}

/// Once the first lines fail, the whole text fails the same way.
proof fn lemma_scan_failure_sticks(ls: Seq<Seq<char>>, k: nat, n: nat)
    requires
        k <= n,
        scan(ls, k) is Err,
    ensures
        scan(ls, n) == scan(ls, k),
    decreases n - k,
{
    if k < n {
        lemma_scan_failure_sticks(ls, k, (n - 1) as nat);
    }
}

/// A line adds at most one instruction, at the end.
proof fn lemma_line_growth(t: SyntaxTreeView, ws: Seq<Seq<char>>)
    ensures
        line_effect(t, ws) matches Ok(t2) ==> t2.instructions.len() == t.instructions.len()
            || t2.instructions.len() == t.instructions.len() + 1,
{
}

/// The first pass records one line number per instruction, each at most the
/// number of lines read.
proof fn lemma_scan_lines(ls: Seq<Seq<char>>, n: nat)
    ensures
        scan(ls, n) matches Ok((t, at)) ==> at.len() == t.instructions.len() && forall|i: int|
            0 <= i < at.len() ==> 1 <= #[trigger] at[i] <= n,
    decreases n,
{
    if n > 0 {
        lemma_scan_lines(ls, (n - 1) as nat);
        if let Ok((t, at)) = scan(ls, (n - 1) as nat) {
            lemma_line_growth(t, words(ls[n - 1]));
        }
    }
}

/// Once the first instructions fail to encode, the whole program fails the same way.
proof fn lemma_encode_failure_sticks(prog: Seq<InstructionView>, k: int)
    requires
        0 <= k <= prog.len(),
        encode_all(prog.subrange(0, k)) is Err,
    ensures
        encode_all(prog) == encode_all(prog.subrange(0, k)),
    decreases prog.len() - k,
{
    if k < prog.len() {
        assert(prog.subrange(0, k + 1).drop_last() == prog.subrange(0, k));
        lemma_encode_failure_sticks(prog, k + 1);
    } else {
        assert(prog.subrange(0, k) == prog);
    }
}

/// The line numbers held in a vector.
pub open spec fn line_numbers(at: Seq<usize>) -> Seq<nat> {
    at.map_values(|x: usize| x as nat)
}

/// Assembles a program text into machine words (see `assemble`), or gives
/// the first error and its 1-based line.
pub fn parse(text: &str) -> (r: Result<Vec<u16>, AsmError>)
    ensures
        view_result(r) == assemble(text@),
{
    let chars = chars_of(text);
    let ls = split_lines(&chars);
    let ghost lv = seqs_view(ls@);
    let mut syntax_tree = SyntaxTree::new();
    let mut at: Vec<usize> = Vec::new();
    let mut i: usize = 0;
    assert(line_numbers(at@) == Seq::<nat>::empty());
    while i < ls.len()
        invariant
            i <= ls.len(),
            lv == seqs_view(ls@),
            lv == lines(text@),
            scan(lv, i as nat) == Ok::<(SyntaxTreeView, Seq<nat>), AsmErrorView>(
                (syntax_tree@, line_numbers(at@)),
            ),
        decreases ls.len() - i,
    {
        assert(lv[i as int] == ls@[i as int]@);
        let ws = split_words(&ls[i]);
        let before = syntax_tree.instruction_count();
        match parse_line(&ws, &mut syntax_tree) {
            Err(kind) => {
                proof {
                    lemma_scan_failure_sticks(lv, (i + 1) as nat, lv.len());
                }
                return Err(AsmError { line: i + 1, kind });
            },
            Ok(()) => {},
        }
        if syntax_tree.instruction_count() > before {
            let ghost old_at = at@;
            at.push(i + 1);
            assert(line_numbers(at@) == line_numbers(old_at).push((i + 1) as nat));
        }
        i += 1;
    }
    let ghost tree = syntax_tree@;
    proof {
        lemma_scan_lines(lv, lv.len());
        lemma_program_resolved(tree.instructions, tree.constants, tree.labels);
    }
    match syntax_tree.generate_instructions() {
        Err((idx, kind)) => {
            assert(line_numbers(at@)[idx as int] == at@[idx as int] as nat);
            Err(AsmError { line: at[idx], kind })
        },
        Ok(instructions) => {
            let ghost iv = instructions_view(instructions@);
            let mut binary: Vec<u16> = Vec::new();
            let mut j: usize = 0;
            assert(iv.subrange(0, 0) == Seq::<InstructionView>::empty());
            while j < instructions.len()
                invariant
                    j <= instructions.len(),
                    iv == instructions_view(instructions@),
                    iv.len() == tree.instructions.len(),
                    at@.len() == tree.instructions.len(),
                    lv == lines(text@),
                    scan(lv, lv.len()) == Ok::<(SyntaxTreeView, Seq<nat>), AsmErrorView>(
                        (tree, line_numbers(at@)),
                    ),
                    resolve_instructions(tree.instructions, tree.constants, tree.labels) == Ok::<
                        Seq<InstructionView>,
                        (nat, ErrorKindView),
                    >(iv),
                    forall|a: int, b: int|
                        0 <= a < iv.len() && 0 <= b < iv[a].params.len() ==> is_resolved(
                            #[trigger] iv[a].params[b],
                        ),
                    encode_all(iv.subrange(0, j as int)) == Ok::<Seq<u16>, (nat, ErrorKindView)>(
                        binary@,
                    ),
                decreases instructions.len() - j,
            {
                assert(iv.subrange(0, j + 1).drop_last() == iv.subrange(0, j as int));
                assert(iv[j as int] == instructions@[j as int]@);
                match generate_instruction(&instructions[j]) {
                    Ok(w) => {
                        binary.push(w);
                    },
                    Err(kind) => {
                        proof {
                            lemma_encode_failure_sticks(iv, j + 1);
                        }
                        assert(line_numbers(at@)[j as int] == at@[j as int] as nat);
                        return Err(AsmError { line: at[j], kind });
                    },
                }
                j += 1;
            }
            assert(iv.subrange(0, iv.len() as int) == iv);
            Ok(binary)
        },
    }
}

} // verus!
