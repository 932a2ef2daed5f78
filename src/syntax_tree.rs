//! Symbolic instructions, and the symbol table that turns them into raw ones.
use vstd::prelude::*;
use crate::error::{view_result, ErrorKind, ErrorKindView};
use crate::isa::Opcode;

verus! {

/// The most instructions a program may hold.
pub const MAX_INSTRUCTIONS: usize = 128;

/// Where an operand's byte comes from.
#[derive(Clone, Debug, PartialEq, Eq)]
pub enum ValueType {
    Raw(u8),
    Const(String),
    Label(String),
}

/// An operand: its byte, or the symbol that will give it, and its addressing
/// mode (`direct` for the byte itself, indirect for the RAM cell it addresses).
#[derive(Clone, Debug, PartialEq, Eq)]
pub struct Value {
    pub direct: bool,
    pub value_type: ValueType,
}

/// A parameter of an instruction.
#[derive(Clone, Debug, PartialEq, Eq)]
pub enum Parameter {
    Acc,
    Value(Value),
}

/// An opcode and its parameters, as written in the source.
#[derive(Clone, Debug, PartialEq, Eq)]
pub struct Instruction {
    pub opcode: Opcode,
    pub param: Vec<Parameter>,
}

/// The view of a `ValueType`.
pub enum ValueTypeView {
    Raw(u8),
    Const(Seq<char>),
    Label(Seq<char>),
}

/// The view of a `Value`.
pub struct ValueView {
    pub direct: bool,
    pub value_type: ValueTypeView,
}

/// The view of a `Parameter`.
pub enum ParameterView {
    Acc,
    Value(ValueView),
}

/// The view of an `Instruction`.
pub struct InstructionView {
    pub opcode: Opcode,
    pub params: Seq<ParameterView>,
}

impl View for ValueType {
    type V = ValueTypeView;

    open spec fn view(&self) -> ValueTypeView {
        match self {
            ValueType::Raw(b) => ValueTypeView::Raw(*b),
            ValueType::Const(n) => ValueTypeView::Const(n@),
            ValueType::Label(n) => ValueTypeView::Label(n@),
        }
    }
}

impl View for Value {
    type V = ValueView;

    open spec fn view(&self) -> ValueView {
        ValueView { direct: self.direct, value_type: self.value_type@ }
    }
}

impl View for Parameter {
    type V = ParameterView;

    open spec fn view(&self) -> ParameterView {
        match self {
            Parameter::Acc => ParameterView::Acc,
            Parameter::Value(v) => ParameterView::Value(v@),
        }
    }
}

/// The views of a sequence of parameters.
pub open spec fn params_view(ps: Seq<Parameter>) -> Seq<ParameterView> {
    ps.map_values(|p: Parameter| p@)
}

/// The views of a sequence of instructions.
pub open spec fn instructions_view(prog: Seq<Instruction>) -> Seq<InstructionView> {
    prog.map_values(|i: Instruction| i@)
}

impl View for Instruction {
    type V = InstructionView;

    open spec fn view(&self) -> InstructionView {
        InstructionView { opcode: self.opcode, params: params_view(self.param@) }
    }
}

impl Value {
    pub fn new(direct: bool, value_type: ValueType) -> (r: Self)
        ensures
            r.direct == direct,
            r.value_type == value_type,
    {
        Self { direct, value_type }
    }
}

impl Instruction {
    pub fn new(opcode: Opcode, param: Vec<Parameter>) -> (r: Self)
        ensures
            r.opcode == opcode,
            r.param == param,
    {
        Self { opcode, param }
    }
}

/// Whether a parameter refers to a label through indirect addressing.
pub open spec fn is_indirect_label(p: ParameterView) -> bool {
    match p {
        ParameterView::Value(v) => !v.direct && v.value_type is Label,
        ParameterView::Acc => false,
    }
}

/// Whether a parameter holds its byte already.
pub open spec fn is_resolved(p: ParameterView) -> bool {
    match p {
        ParameterView::Value(v) => v.value_type is Raw,
        ParameterView::Acc => true,
    }
}

/// The mathematical view of a `SyntaxTree`: the instructions in program order,
/// and the two symbol tables.
pub struct SyntaxTreeView {
    pub instructions: Seq<InstructionView>,
    pub constants: Map<Seq<char>, u8>,
    pub labels: Map<Seq<char>, u8>,
}

impl SyntaxTreeView {
    /// The tree before any line was read.
    pub open spec fn empty() -> SyntaxTreeView {
        SyntaxTreeView { instructions: seq![], constants: Map::empty(), labels: Map::empty() }
    }

    /// Declares a constant: a name may be declared once.
    pub open spec fn add_const(self, name: Seq<char>, value: u8) -> Result<
        SyntaxTreeView,
        ErrorKindView,
    > {
        if self.constants.contains_key(name) {
            Err(ErrorKindView::DuplicateConstant(name))
        } else {
            Ok(SyntaxTreeView { constants: self.constants.insert(name, value), ..self })
        }
    }

    /// Declares a label at the address of the next instruction: a name may be
    /// declared once.
    pub open spec fn add_label(self, name: Seq<char>) -> Result<SyntaxTreeView, ErrorKindView> {
        if self.labels.contains_key(name) {
            Err(ErrorKindView::DuplicateLabel(name))
        } else {
            Ok(
                SyntaxTreeView {
                    labels: self.labels.insert(name, self.instructions.len() as u8),
                    ..self
                },
            )
        }
    }

    /// Appends an instruction, unless it uses a label indirectly or the program
    /// is full.
    pub open spec fn add_instruction(self, ins: InstructionView) -> Result<
        SyntaxTreeView,
        ErrorKindView,
    > {
        if exists|j: int| 0 <= j < ins.params.len() && is_indirect_label(#[trigger] ins.params[j]) {
            Err(ErrorKindView::IndirectLabel)
        } else if self.instructions.len() >= MAX_INSTRUCTIONS {
            Err(ErrorKindView::TooManyInstructions)
        } else {
            Ok(SyntaxTreeView { instructions: self.instructions.push(ins), ..self })
        }
    }
}

/// Whether a method that updates a tree in place did what `expected` says:
/// on success the new tree is the expected one, on failure the error is the
/// expected one and the tree is unchanged.
pub open spec fn updates_as(
    r: Result<(), ErrorKind>,
    before: SyntaxTreeView,
    after: SyntaxTreeView,
    expected: Result<SyntaxTreeView, ErrorKindView>,
) -> bool {
    match r {
        Ok(_) => expected == Ok::<SyntaxTreeView, ErrorKindView>(after),
        Err(e) => expected == Err::<SyntaxTreeView, ErrorKindView>(e@) && after == before,
    }
}

/// The byte a symbol stands for under the two tables.
pub open spec fn resolve_value(
    v: ValueView,
    constants: Map<Seq<char>, u8>,
    labels: Map<Seq<char>, u8>,
) -> Result<ValueView, ErrorKindView> {
    match v.value_type {
        ValueTypeView::Raw(_) => Ok(v),
        ValueTypeView::Const(n) => if constants.contains_key(n) {
            Ok(ValueView { direct: v.direct, value_type: ValueTypeView::Raw(constants[n]) })
        } else {
            Err(ErrorKindView::UndefinedConstant(n))
        },
        ValueTypeView::Label(n) => if labels.contains_key(n) {
            Ok(ValueView { direct: v.direct, value_type: ValueTypeView::Raw(labels[n]) })
        } else {
            Err(ErrorKindView::UndefinedLabel(n))
        },
    }
}

/// A parameter with its symbol replaced by the byte it stands for.
pub open spec fn resolve_parameter(
    p: ParameterView,
    constants: Map<Seq<char>, u8>,
    labels: Map<Seq<char>, u8>,
) -> Result<ParameterView, ErrorKindView> {
    match p {
        ParameterView::Acc => Ok(ParameterView::Acc),
        ParameterView::Value(v) => match resolve_value(v, constants, labels) {
            Ok(r) => Ok(ParameterView::Value(r)),
            Err(e) => Err(e),
        },
    }
}

/// Every parameter resolved in order; the first failure wins.
pub open spec fn resolve_params(
    ps: Seq<ParameterView>,
    constants: Map<Seq<char>, u8>,
    labels: Map<Seq<char>, u8>,
) -> Result<Seq<ParameterView>, ErrorKindView>
    decreases ps.len(),
{
    if ps.len() == 0 {
        Ok(seq![])
    } else {
        match resolve_params(ps.drop_last(), constants, labels) {
            Err(e) => Err(e),
            Ok(done) => match resolve_parameter(ps.last(), constants, labels) {
                Ok(p) => Ok(done.push(p)),
                Err(e) => Err(e),
            },
        }
    }
}

/// An instruction with all its parameters resolved.
pub open spec fn resolve_instruction(
    ins: InstructionView,
    constants: Map<Seq<char>, u8>,
    labels: Map<Seq<char>, u8>,
) -> Result<InstructionView, ErrorKindView> {
    match resolve_params(ins.params, constants, labels) {
        Ok(ps) => Ok(InstructionView { opcode: ins.opcode, params: ps }),
        Err(e) => Err(e),
    }
}

/// Every instruction resolved in order; a failure comes with the index of the
/// first instruction that fails.
pub open spec fn resolve_instructions(
    prog: Seq<InstructionView>,
    constants: Map<Seq<char>, u8>,
    labels: Map<Seq<char>, u8>,
) -> Result<Seq<InstructionView>, (nat, ErrorKindView)>
    decreases prog.len(),
{
    if prog.len() == 0 {
        Ok(seq![])
    } else {
        match resolve_instructions(prog.drop_last(), constants, labels) {
            Err(e) => Err(e),
            Ok(done) => match resolve_instruction(prog.last(), constants, labels) {
                Ok(i) => Ok(done.push(i)),
                Err(k) => Err(((prog.len() - 1) as nat, k)),
            },
        }
    }
}

/// Once a prefix of the parameters fails, the whole list fails the same way.
proof fn lemma_params_failure_sticks(
    ps: Seq<ParameterView>,
    constants: Map<Seq<char>, u8>,
    labels: Map<Seq<char>, u8>,
    k: int,
)
    requires
        0 <= k <= ps.len(),
        resolve_params(ps.subrange(0, k), constants, labels) is Err,
    ensures
        resolve_params(ps, constants, labels) == resolve_params(ps.subrange(0, k), constants, labels),
    decreases ps.len() - k,
{
    if k < ps.len() {
        assert(ps.subrange(0, k + 1).drop_last() == ps.subrange(0, k));
        lemma_params_failure_sticks(ps, constants, labels, k + 1);
    } else {
        assert(ps.subrange(0, k) == ps);
    }
}

/// Once a prefix of the instructions fails, the whole program fails the same way.
proof fn lemma_instructions_failure_sticks(
    prog: Seq<InstructionView>,
    constants: Map<Seq<char>, u8>,
    labels: Map<Seq<char>, u8>,
    k: int,
)
    requires
        0 <= k <= prog.len(),
        resolve_instructions(prog.subrange(0, k), constants, labels) is Err,
    ensures
        resolve_instructions(prog, constants, labels) == resolve_instructions(
            prog.subrange(0, k),
            constants,
            labels,
        ),
    decreases prog.len() - k,
{
    if k < prog.len() {
        assert(prog.subrange(0, k + 1).drop_last() == prog.subrange(0, k));
        lemma_instructions_failure_sticks(prog, constants, labels, k + 1);
    } else {
        assert(prog.subrange(0, k) == prog);
    }
}

/// Resolving parameters keeps their number and leaves no symbol behind.
pub proof fn lemma_params_resolved(
    ps: Seq<ParameterView>,
    constants: Map<Seq<char>, u8>,
    labels: Map<Seq<char>, u8>,
)
    ensures
        resolve_params(ps, constants, labels) matches Ok(rs) ==> rs.len() == ps.len() && forall|j: int|
            0 <= j < rs.len() ==> is_resolved(#[trigger] rs[j]) && resolve_parameter(
                ps[j],
                constants,
                labels,
            ) == Ok::<ParameterView, ErrorKindView>(rs[j]),
    decreases ps.len(),
{
    if ps.len() > 0 {
        lemma_params_resolved(ps.drop_last(), constants, labels);
    }
}

/// After resolution every operand is a raw byte: a resolved program has as
/// many instructions as the source, each with the same opcode and no symbol
/// left; a failure names an instruction of the program.
pub proof fn lemma_program_resolved(
    prog: Seq<InstructionView>,
    constants: Map<Seq<char>, u8>,
    labels: Map<Seq<char>, u8>,
)
    ensures
        resolve_instructions(prog, constants, labels) matches Ok(rs) ==> {
            &&& rs.len() == prog.len()
            &&& forall|i: int|
                0 <= i < rs.len() ==> resolve_instruction(#[trigger] prog[i], constants, labels) == Ok::<
                    InstructionView,
                    ErrorKindView,
                >(rs[i])
            &&& forall|i: int, j: int|
                0 <= i < rs.len() && 0 <= j < rs[i].params.len() ==> is_resolved(
                    #[trigger] rs[i].params[j],
                )
        },
        resolve_instructions(prog, constants, labels) matches Err((i, _)) ==> i < prog.len(),
    decreases prog.len(),
{
    if prog.len() > 0 {
        let init = prog.drop_last();
        lemma_program_resolved(init, constants, labels);
        lemma_params_resolved(prog.last().params, constants, labels);
        if let Ok(rs) = resolve_instructions(prog, constants, labels) {
            let done = resolve_instructions(init, constants, labels)->Ok_0;
            assert(rs == done.push(rs.last()));
            assert forall|i: int| 0 <= i < rs.len() implies resolve_instruction(
                #[trigger] prog[i],
                constants,
                labels,
            ) == Ok::<InstructionView, ErrorKindView>(rs[i]) by {
                if i < rs.len() - 1 {
                    assert(prog[i] == init[i]);
                    assert(rs[i] == done[i]);
                }
            }
        }
    }
}

/// The map that a table of (name, value) pairs stands for: a later pair
/// overrides an earlier one of the same name.
pub open spec fn table_view(t: Seq<(String, u8)>) -> Map<Seq<char>, u8>
    decreases t.len(),
{
    if t.len() == 0 {
        Map::empty()
    } else {
        table_view(t.drop_last()).insert(t.last().0@, t.last().1)
    }
}

/// The value of a name in a table, if it has one.
fn lookup(t: &Vec<(String, u8)>, name: &String) -> (r: Option<u8>)
    ensures
        r == (if table_view(t@).contains_key(name@) {
            Some(table_view(t@)[name@])
        } else {
            None
        }),
{
    let mut found: Option<u8> = None;
    let mut i: usize = 0;
    while i < t.len()
        invariant
            i <= t.len(),
            found == (if table_view(t@.subrange(0, i as int)).contains_key(name@) {
                Some(table_view(t@.subrange(0, i as int))[name@])
            } else {
                None
            }),
        decreases t.len() - i,
    {
        assert(t@.subrange(0, i + 1).drop_last() == t@.subrange(0, i as int));
        if t[i].0 == *name {
            found = Some(t[i].1);
        }
        i += 1;
    }
    assert(t@.subrange(0, t@.len() as int) == t@);
    found
}

/// The program being assembled: its instructions in order, its constants and
/// its labels.
pub struct SyntaxTree {
    instructions: Vec<Instruction>,
    constants: Vec<(String, u8)>,
    labels: Vec<(String, u8)>,
}

impl View for SyntaxTree {
    type V = SyntaxTreeView;

    closed spec fn view(&self) -> SyntaxTreeView {
        SyntaxTreeView {
            instructions: instructions_view(self.instructions@),
            constants: table_view(self.constants@),
            labels: table_view(self.labels@),
        }
    }
}

impl SyntaxTree {
    pub fn new() -> (r: Self)
        ensures
            r@ == SyntaxTreeView::empty(),
    {
        let r = Self { instructions: Vec::new(), constants: Vec::new(), labels: Vec::new() };
        assert(instructions_view(r.instructions@) == Seq::<InstructionView>::empty());
        r
    }

    /// The number of instructions so far.
    pub fn instruction_count(&self) -> (r: usize)
        ensures
            r == self@.instructions.len(),
    {
        self.instructions.len()
    }

    pub fn add_instruction(&mut self, instruction: Instruction) -> (r: Result<(), ErrorKind>)
        ensures
            updates_as(r, old(self)@, final(self)@, old(self)@.add_instruction(instruction@)),
    {
        let ghost params = instruction@.params;
        let mut j: usize = 0;
        while j < instruction.param.len()
            invariant
                j <= instruction.param.len(),
                params == params_view(instruction.param@),
                forall|k: int| 0 <= k < j ==> !is_indirect_label(#[trigger] params[k]),
            decreases instruction.param.len() - j,
        {
            if let Parameter::Value(value) = &instruction.param[j] {
                if let ValueType::Label(_) = &value.value_type {
                    if !value.direct {
                        assert(is_indirect_label(instruction@.params[j as int]));
                        return Err(ErrorKind::IndirectLabel);
                    }
                }
            }
            j += 1;
        }
        if self.instructions.len() >= MAX_INSTRUCTIONS {
            return Err(ErrorKind::TooManyInstructions);
        }
        let ghost before = self.instructions@;
        self.instructions.push(instruction);
        assert(instructions_view(self.instructions@) == instructions_view(before).push(
            instruction@,
        ));
        Ok(())
    }

    pub fn add_const(&mut self, const_name: &str, global_value: u8) -> (r: Result<(), ErrorKind>)
        ensures
            updates_as(r, old(self)@, final(self)@, old(self)@.add_const(const_name@, global_value)),
    {
        let name = const_name.to_owned();
        if lookup(&self.constants, &name).is_some() {
            return Err(ErrorKind::DuplicateConstant(name));
        }
        let ghost before = self.constants@;
        self.constants.push((name, global_value));
        assert(self.constants@.drop_last() == before);
        Ok(())
    }

    pub fn add_label(&mut self, label_name: &str) -> (r: Result<(), ErrorKind>)
        ensures
            updates_as(r, old(self)@, final(self)@, old(self)@.add_label(label_name@)),
    {
        let name = label_name.to_owned();
        if lookup(&self.labels, &name).is_some() {
            return Err(ErrorKind::DuplicateLabel(name));
        }
        let ghost before = self.labels@;
        let address = self.instructions.len() as u8;
        self.labels.push((name, address));
        assert(self.labels@.drop_last() == before);
        Ok(())
    }

    /// Replaces constant and label names by their raw value.
    fn process_instruction(&self, instruction: &Instruction) -> (r: Result<Instruction, ErrorKind>)
        ensures
            view_result(r) == resolve_instruction(instruction@, self@.constants, self@.labels),
    {
        let ghost params = instruction@.params;
        let mut new_parameters: Vec<Parameter> = Vec::new();
        let mut j: usize = 0;
        assert(params.subrange(0, 0) == Seq::<ParameterView>::empty());
        assert(params_view(new_parameters@) == Seq::<ParameterView>::empty());
        while j < instruction.param.len()
            invariant
                j <= instruction.param.len(),
                params == params_view(instruction.param@),
                resolve_params(params.subrange(0, j as int), self@.constants, self@.labels) == Ok::<
                    Seq<ParameterView>,
                    ErrorKindView,
                >(params_view(new_parameters@)),
            decreases instruction.param.len() - j,
        {
            assert(params.subrange(0, j + 1).drop_last() == params.subrange(0, j as int));
            let parameter = match &instruction.param[j] {
                Parameter::Acc => Parameter::Acc,
                Parameter::Value(value) => match &value.value_type {
                    ValueType::Raw(b) => Parameter::Value(Value::new(value.direct, ValueType::Raw(*b))),
                    ValueType::Const(const_name) => match lookup(&self.constants, const_name) {
                        Some(const_value) => Parameter::Value(
                            Value::new(value.direct, ValueType::Raw(const_value)),
                        ),
                        None => {
                            proof {
                                assert(params[j as int] == instruction.param@[j as int]@);
                                lemma_params_failure_sticks(
                                    params,
                                    self@.constants,
                                    self@.labels,
                                    j + 1,
                                );
                            }
                            return Err(ErrorKind::UndefinedConstant(const_name.clone()));
                        },
                    },
                    ValueType::Label(label_name) => match lookup(&self.labels, label_name) {
                        Some(label_value) => Parameter::Value(
                            Value::new(value.direct, ValueType::Raw(label_value)),
                        ),
                        None => {
                            proof {
                                assert(params[j as int] == instruction.param@[j as int]@);
                                lemma_params_failure_sticks(
                                    params,
                                    self@.constants,
                                    self@.labels,
                                    j + 1,
                                );
                            }
                            return Err(ErrorKind::UndefinedLabel(label_name.clone()));
                        },
                    },
                },
            };
            let ghost before = new_parameters@;
            new_parameters.push(parameter);
            assert(params_view(new_parameters@) == params_view(before).push(parameter@));
            j += 1;
        }
        assert(params.subrange(0, params.len() as int) == params);
        Ok(Instruction::new(instruction.opcode, new_parameters))
    }

    /// The list of instructions with constants and labels replaced by their
    /// raw value, ready to be encoded; or the index of the first instruction
    /// that names an undefined symbol, and the error.
    pub fn generate_instructions(&self) -> (r: Result<Vec<Instruction>, (usize, ErrorKind)>)
        ensures
            match r {
                Ok(v) => resolve_instructions(self@.instructions, self@.constants, self@.labels)
                    == Ok::<Seq<InstructionView>, (nat, ErrorKindView)>(instructions_view(v@)),
                Err((i, k)) => resolve_instructions(
                    self@.instructions,
                    self@.constants,
                    self@.labels,
                ) == Err::<Seq<InstructionView>, (nat, ErrorKindView)>((i as nat, k@)),
            },
    {
        let ghost all = self@.instructions;
        let mut checked_instructions: Vec<Instruction> = Vec::new();
        let mut i: usize = 0;
        assert(all.subrange(0, 0) == Seq::<InstructionView>::empty());
        assert(instructions_view(checked_instructions@) == Seq::<InstructionView>::empty());
        while i < self.instructions.len()
            invariant
                i <= self.instructions.len(),
                all == instructions_view(self.instructions@),
                all == self@.instructions,
                resolve_instructions(all.subrange(0, i as int), self@.constants, self@.labels)
                    == Ok::<Seq<InstructionView>, (nat, ErrorKindView)>(
                    instructions_view(checked_instructions@),
                ),
            decreases self.instructions.len() - i,
        {
            assert(all.subrange(0, i + 1).drop_last() == all.subrange(0, i as int));
            match self.process_instruction(&self.instructions[i]) {
                Ok(instr) => {
                    let ghost before = checked_instructions@;
                    checked_instructions.push(instr);
                    assert(instructions_view(checked_instructions@) == instructions_view(
                        before,
                    ).push(instr@));
                },
                Err(errmsg) => {
                    proof {
                        lemma_instructions_failure_sticks(
                            all,
                            self@.constants,
                            self@.labels,
                            i + 1,
                        );
                    }
                    return Err((i, errmsg));
                },
            }
            i += 1;
        }
        assert(all.subrange(0, all.len() as int) == all);
        Ok(checked_instructions)
    }
}

} // verus!
