//! The execution engine: the machine state and one fetch-decode-execute step.
use vstd::prelude::*;
use crate::instruction_generator::{code_of_word, operand_of_word};
use crate::isa::{decode, decode_code, Form, Opcode};

verus! {

/// The mathematical view of the machine: ROM and RAM as sequences of 256
/// cells, the accumulator, the four flags and the program counter.
pub struct MachineView {
    pub rom: Seq<u16>,
    pub ram: Seq<u8>,
    pub accumulator: u8,
    pub zero: bool,
    pub carry: bool,
    pub overflow: bool,
    pub negative: bool,
    pub pc: u8,
}

impl MachineView {
    /// Both memories have 256 cells.
    pub open spec fn wf(self) -> bool {
        self.rom.len() == 256 && self.ram.len() == 256
    }

    /// The word at the program counter.
    pub open spec fn current_word(self) -> u16 {
        self.rom[self.pc as int]
    }

    /// The instruction and operand form that the word at the program counter
    /// encodes, if any.
    pub open spec fn decoded(self) -> Option<(Opcode, Form)> {
        decode_code(code_of_word(self.current_word()))
    }

    /// The program counter moved on to the next word (255 wraps to 0).
    pub open spec fn advance(self) -> MachineView {
        MachineView { pc: ((self.pc as int + 1) % 256) as u8, ..self }
    }

    /// A new accumulator value, with Zero and Negative computed from it.
    pub open spec fn load(self, v: u8) -> MachineView {
        MachineView { accumulator: v, zero: v == 0, negative: v > 0x7F, ..self }
    }

    /// The byte an operand stands for: the byte itself, the RAM cell it
    /// addresses, or the accumulator.
    pub open spec fn fetch(self, form: Form, operand: u8) -> u8 {
        match form {
            Form::Direct => operand,
            Form::Indirect => self.ram[operand as int],
            Form::Accumulator => self.accumulator,
            Form::NoOperand => 0,
        }
    }

    /// Addition of `b` and of the carry in to the accumulator: the result
    /// wraps; Carry is the carry out; Overflow is set when both operands have
    /// the same sign and the result has the other.
    pub open spec fn add(self, b: u8, carry_in: bool) -> MachineView {
        let sum = self.accumulator as int + b as int + if carry_in {
            1int
        } else {
            0int
        };
        let r = (sum % 256) as u8;
        MachineView {
            carry: sum > 255,
            overflow: (self.accumulator > 0x7F) == (b > 0x7F) && (self.accumulator > 0x7F) != (r
                > 0x7F),
            ..self.load(r)
        }
    }

    /// Writes `v` where an operand in `form` sits (the accumulator or a RAM
    /// cell), with Zero and Negative computed from it.
    pub open spec fn write_back(self, form: Form, operand: u8, v: u8) -> MachineView {
        match form {
            Form::Indirect => MachineView {
                ram: self.ram.update(operand as int, v),
                zero: v == 0,
                negative: v > 0x7F,
                ..self
            },
            _ => self.load(v),
        }
    }

    /// A conditional jump: to `target` when `taken`, else to the next word.
    pub open spec fn branch(self, taken: bool, target: u8) -> MachineView {
        if taken {
            MachineView { pc: target, ..self }
        } else {
            self.advance()
        }
    }

    /// The effect of one instruction on the machine.
    pub open spec fn execute(self, op: Opcode, form: Form, operand: u8) -> MachineView {
        let a = self.accumulator;
        let v = self.fetch(form, operand);
        match op {
            Opcode::St => MachineView { ram: self.ram.update(operand as int, a), ..self }.advance(),
            Opcode::Ld => self.load(v).advance(),
            Opcode::And => self.load(a & v).advance(),
            Opcode::Or => self.load(a | v).advance(),
            Opcode::Xor => self.load(a ^ v).advance(),
            Opcode::Rol => MachineView {
                carry: a >= 128,
                ..self.load(
                    if a >= 128 {
                        ((a - 128) * 2 + 1) as u8
                    } else {
                        (a * 2) as u8
                    },
                )
            }.advance(),
            Opcode::Ror => MachineView {
                carry: a % 2 == 1,
                ..self.load(
                    (a / 2 + if a % 2 == 1 {
                        128int
                    } else {
                        0int
                    }) as u8,
                )
            }.advance(),
            Opcode::Add => self.add(v, false).advance(),
            Opcode::Adc => self.add(v, self.carry).advance(),
            Opcode::Neg => self.load(((256 - v as int) % 256) as u8).advance(),
            Opcode::Inc => MachineView {
                carry: v == 255,
                ..self.write_back(form, operand, ((v as int + 1) % 256) as u8)
            }.advance(),
            Opcode::Dec => MachineView {
                carry: v == 0,
                ..self.write_back(form, operand, ((v as int + 255) % 256) as u8)
            }.advance(),
            Opcode::Setc => MachineView { carry: true, ..self }.advance(),
            Opcode::Clrc => MachineView { carry: false, ..self }.advance(),
            Opcode::Trfnc => MachineView { carry: self.negative, ..self }.advance(),
            Opcode::Bz0 => self.branch(!self.zero, operand),
            Opcode::Bz1 => self.branch(self.zero, operand),
            Opcode::Bc0 => self.branch(!self.carry, operand),
            Opcode::Bc1 => self.branch(self.carry, operand),
            Opcode::Bv0 => self.branch(!self.overflow, operand),
            Opcode::Bv1 => self.branch(self.overflow, operand),
            Opcode::Bn0 => self.branch(!self.negative, operand),
            Opcode::Bn1 => self.branch(self.negative, operand),
            Opcode::Bra => MachineView { pc: operand, ..self },
            Opcode::Nop => self.advance(),
        }
    }

    /// One tick: the instruction at the program counter, decoded and executed.
    pub open spec fn step(self) -> MachineView {
        match self.decoded() {
            Some((op, form)) => self.execute(op, form, operand_of_word(self.current_word())),
            None => self,
        }
    }
}

/// The nano chip: a ROM of 256 words, a RAM of 256 bytes, an accumulator,
/// the Zero, Carry, oVerflow and Negative flags, and a program counter.
pub struct NanoChipEmulator {
    rom: [u16; 256],
    ram: [u8; 256],
    accumulator: u8,
    z_flag: bool,
    c_flag: bool,
    v_flag: bool,
    n_flag: bool,
    pc: u8,
}

impl View for NanoChipEmulator {
    type V = MachineView;

    closed spec fn view(&self) -> MachineView {
        MachineView {
            rom: self.rom@,
            ram: self.ram@,
            accumulator: self.accumulator,
            zero: self.z_flag,
            carry: self.c_flag,
            overflow: self.v_flag,
            negative: self.n_flag,
            pc: self.pc,
        }
    }
}

impl NanoChipEmulator {
    /// A machine running `rom` from address 0, with everything else zero.
    pub fn new(rom: &[u16; 256]) -> (r: Self)
        ensures
            r@.wf(),
            r@.rom == rom@,
            forall|i: int| 0 <= i < 256 ==> r@.ram[i] == 0,
            r@.accumulator == 0,
            !r@.zero && !r@.carry && !r@.overflow && !r@.negative,
            r@.pc == 0,
    {
        NanoChipEmulator {
            rom: *rom,
            ram: [0u8; 256],
            accumulator: 0,
            z_flag: false,
            c_flag: false,
            v_flag: false,
            n_flag: false,
            pc: 0,
        }
    }

    pub fn accumulator(&self) -> (r: u8)
        ensures
            r == self@.accumulator,
    {
        self.accumulator
    }

    pub fn zero_flag(&self) -> (r: bool)
        ensures
            r == self@.zero,
    {
        self.z_flag
    }

    pub fn carry_flag(&self) -> (r: bool)
        ensures
            r == self@.carry,
    {
        self.c_flag
    }

    pub fn overflow_flag(&self) -> (r: bool)
        ensures
            r == self@.overflow,
    {
        self.v_flag
    }

    pub fn negative_flag(&self) -> (r: bool)
        ensures
            r == self@.negative,
    {
        self.n_flag
    }

    pub fn pc(&self) -> (r: u8)
        ensures
            r == self@.pc,
    {
        self.pc
    }

    /// The RAM cell at `address`.
    pub fn ram_at(&self, address: u8) -> (r: u8)
        ensures
            r == self@.ram[address as int],
    {
        self.ram[address as usize]
    }

    /// The ROM word at `address`.
    pub fn rom_at(&self, address: u8) -> (r: u16)
        ensures
            r == self@.rom[address as int],
    {
        self.rom[address as usize]
    }

    /// Whether the word at the program counter holds a known operation code,
    /// which `tick` needs.
    pub fn can_tick(&self) -> (r: bool)
        ensures
            r == self@.decoded() is Some,
    {
        let w = self.rom[self.pc as usize];
        decode((w / 256) as u8).is_some()
    }

    fn advance(&mut self)
        ensures
            final(self)@ == old(self)@.advance(),
    {
        self.pc = if self.pc == 255 {
            0
        } else {
            self.pc + 1
        };
    }

    fn load(&mut self, v: u8)
        ensures
            final(self)@ == old(self)@.load(v),
    {
        self.accumulator = v;
        self.z_flag = v == 0;
        self.n_flag = v > 0x7F;
    }

    fn fetch(&self, form: Form, operand: u8) -> (r: u8)
        ensures
            r == self@.fetch(form, operand),
    {
        match form {
            Form::Direct => operand,
            Form::Indirect => self.ram[operand as usize],
            Form::Accumulator => self.accumulator,
            Form::NoOperand => 0,
        }
    }

    fn add(&mut self, b: u8, carry_in: bool)
        ensures
            final(self)@ == old(self)@.add(b, carry_in),
    {
        let a = self.accumulator;
        let sum: u16 = a as u16 + b as u16 + if carry_in {
            1u16
        } else {
            0u16
        };
        let r = (sum % 256) as u8;
        self.load(r);
        self.c_flag = sum > 255;
        self.v_flag = (a > 0x7F) == (b > 0x7F) && (a > 0x7F) != (r > 0x7F);
    }

    fn write_back(&mut self, form: Form, operand: u8, v: u8)
        ensures
            final(self)@ == old(self)@.write_back(form, operand, v),
    {
        match form {
            Form::Indirect => {
                self.ram[operand as usize] = v;
                self.z_flag = v == 0;
                self.n_flag = v > 0x7F;
            },
            _ => self.load(v),
        }
    }

    fn branch(&mut self, taken: bool, target: u8)
        ensures
            final(self)@ == old(self)@.branch(taken, target),
    {
        if taken {
            self.pc = target;
        } else {
            self.advance();
        }
    }

    fn execute(&mut self, op: Opcode, form: Form, operand: u8)
        ensures
            final(self)@ == old(self)@.execute(op, form, operand),
    {
        let a = self.accumulator;
        let v = self.fetch(form, operand);
        match op {
            Opcode::St => {
                self.ram[operand as usize] = a;
                self.advance();
            },
            Opcode::Ld => {
                self.load(v);
                self.advance();
            },
            Opcode::And => {
                self.load(a & v);
                self.advance();
            },
            Opcode::Or => {
                self.load(a | v);
                self.advance();
            },
            Opcode::Xor => {
                self.load(a ^ v);
                self.advance();
            },
            Opcode::Rol => {
                let r = if a >= 128 {
                    (a - 128) * 2 + 1
                } else {
                    a * 2
                };
                self.load(r);
                self.c_flag = a >= 128;
                self.advance();
            },
            Opcode::Ror => {
                let r = a / 2 + if a % 2 == 1 {
                    128u8
                } else {
                    0u8
                };
                self.load(r);
                self.c_flag = a % 2 == 1;
                self.advance();
            },
            Opcode::Add => {
                self.add(v, false);
                self.advance();
            },
            Opcode::Adc => {
                let c = self.c_flag;
                self.add(v, c);
                self.advance();
            },
            Opcode::Neg => {
                self.load(((256 - v as u16) % 256) as u8);
                self.advance();
            },
            Opcode::Inc => {
                self.write_back(form, operand, ((v as u16 + 1) % 256) as u8);
                self.c_flag = v == 255;
                self.advance();
            },
            Opcode::Dec => {
                self.write_back(form, operand, ((v as u16 + 255) % 256) as u8);
                self.c_flag = v == 0;
                self.advance();
            },
            Opcode::Setc => {
                self.c_flag = true;
                self.advance();
            },
            Opcode::Clrc => {
                self.c_flag = false;
                self.advance();
            },
            Opcode::Trfnc => {
                self.c_flag = self.n_flag;
                self.advance();
            },
            Opcode::Bz0 => {
                let t = !self.z_flag;
                self.branch(t, operand);
            },
            Opcode::Bz1 => {
                let t = self.z_flag;
                self.branch(t, operand);
            },
            Opcode::Bc0 => {
                let t = !self.c_flag;
                self.branch(t, operand);
            },
            Opcode::Bc1 => {
                let t = self.c_flag;
                self.branch(t, operand);
            },
            Opcode::Bv0 => {
                let t = !self.v_flag;
                self.branch(t, operand);
            },
            Opcode::Bv1 => {
                let t = self.v_flag;
                self.branch(t, operand);
            },
            Opcode::Bn0 => {
                let t = !self.n_flag;
                self.branch(t, operand);
            },
            Opcode::Bn1 => {
                let t = self.n_flag;
                self.branch(t, operand);
            },
            Opcode::Bra => {
                self.pc = operand;
            },
            Opcode::Nop => {
                self.advance();
            },
        }
    }

    /// Executes a single instruction: the word at the program counter is
    /// fetched, decoded and executed. The word must hold a known operation
    /// code (see `can_tick`).
    pub fn tick(&mut self)
        requires
            old(self)@.decoded() is Some,
        ensures
            final(self)@ == old(self)@.step(),
            final(self)@.wf(),
    {
        let w = self.rom[self.pc as usize];
        let code = (w / 256) as u8;
        let operand = (w % 256) as u8;
        if let Some((op, form)) = decode(code) {
            self.execute(op, form, operand);
        }
    }
}

} // verus!
