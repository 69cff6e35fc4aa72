use vstd::prelude::*;

verus! {

/// How the integer of an operand is turned into a core address.
#[derive(Clone, Copy, Debug, PartialEq, Eq, Structural)]
pub enum Address {
    /// `#`: the integer is a literal, not an address.
    Immediate,
    /// `$`: an offset from the executing cell.
    Direct,
    /// `@`: an offset to a cell whose own field holds a further offset.
    Indirect,
    /// `<`: indirect, with the pointer field decremented before use. The
    /// engine does not resolve this mode.
    PreIncIndirect,
    /// `>`: indirect, with the pointer field incremented after use. The
    /// engine does not resolve this mode.
    PostIncIndirect,
}

/// The operation of a cell.
#[derive(Clone, Copy, Debug, PartialEq, Eq, Structural)]
pub enum Instruction {
    DAT,
    NOP,
    MOV,
    ADD,
    SUB,
    MUL,
    DIV,
    MOD,
    JMP,
    JMZ,
    JMN,
    DJN,
    CMP,
    SLT,
    SPL,
}

/// Which fields of the source and of the destination take part in an
/// operation.
#[derive(Clone, Copy, Debug, PartialEq, Eq, Structural)]
pub enum Modifier {
    /// A-field of the source, A-field of the destination.
    A,
    /// B-field of the source, B-field of the destination.
    B,
    /// A-field of the source, B-field of the destination.
    AB,
    /// B-field of the source, A-field of the destination.
    BA,
    /// Both fields, each with its namesake.
    F,
    /// Both fields, crossed.
    X,
    /// The whole cell; for operations on numbers, both fields as with `F`.
    I,
}

/// One of the two field positions of a cell.
#[derive(Clone, Copy, Debug, PartialEq, Eq, Structural)]
pub enum Slot {
    A,
    B,
}

/// An operand field: an addressing mode and a signed integer.
#[derive(Clone, Copy, Debug, PartialEq, Eq, Structural)]
pub struct Param {
    pub addr: Address,
    pub val: i32,
}

/// The unit of storage of the core and of program text.
#[derive(Clone, Copy, Debug, PartialEq, Eq, Structural)]
pub struct Cell {
    pub ins: Instruction,
    pub modifier: Modifier,
    pub a: Param,
    pub b: Param,
}

/// The modifier that a cell written without one is given: the ICWS'88 reading
/// of the instruction, expressed in ICWS'94 terms.
pub open spec fn default_modifier(ins: Instruction, a: Address, b: Address) -> Modifier {
    match ins {
        Instruction::DAT | Instruction::NOP => Modifier::F,
        Instruction::MOV | Instruction::CMP => if a is Immediate {
            Modifier::AB
        } else if b is Immediate {
            Modifier::B
        } else {
            Modifier::I
        },
        Instruction::ADD
        | Instruction::SUB
        | Instruction::MUL
        | Instruction::DIV
        | Instruction::MOD => if a is Immediate {
            Modifier::AB
        } else if b is Immediate {
            Modifier::B
        } else {
            Modifier::F
        },
        Instruction::SLT => if a is Immediate {
            Modifier::AB
        } else {
            Modifier::B
        },
        Instruction::JMP
        | Instruction::JMZ
        | Instruction::JMN
        | Instruction::DJN
        | Instruction::SPL => Modifier::B,
    }
}

impl Address {
    /// The modes that the engine resolves.
    pub open spec fn supported(self) -> bool {
        self is Immediate || self is Direct || self is Indirect
    }
}

impl Modifier {
    /// The modifier for a cell that was written without one.
    pub fn infer(ins: Instruction, a: Address, b: Address) -> (r: Modifier)
        ensures
            r == default_modifier(ins, a, b),
    {
        let a_imm = matches!(a, Address::Immediate);
        let b_imm = matches!(b, Address::Immediate);
        match ins {
            Instruction::DAT | Instruction::NOP => Modifier::F,
            Instruction::MOV | Instruction::CMP => {
                match (a_imm, b_imm) {
                    (true, _) => Modifier::AB,
                    (_, true) => Modifier::B,
                    _ => Modifier::I,
                }
            },
            Instruction::ADD
            | Instruction::SUB
            | Instruction::MUL
            | Instruction::DIV
            | Instruction::MOD => {
                match (a_imm, b_imm) {
                    (true, _) => Modifier::AB,
                    (_, true) => Modifier::B,
                    _ => Modifier::F,
                }
            },
            Instruction::SLT => {
                if a_imm {
                    Modifier::AB
                } else {
                    Modifier::B
                }
            },
            Instruction::JMP
            | Instruction::JMZ
            | Instruction::JMN
            | Instruction::DJN
            | Instruction::SPL => Modifier::B,
        }
    }

    /// The source field that is paired with destination field `d`, or `None`
    /// where `d` takes no part in the operation.
    pub open spec fn feeds(self, d: Slot) -> Option<Slot> {
        match (self, d) {
            (Modifier::A, Slot::A) => Some(Slot::A),
            (Modifier::B, Slot::B) => Some(Slot::B),
            (Modifier::AB, Slot::B) => Some(Slot::A),
            (Modifier::BA, Slot::A) => Some(Slot::B),
            (Modifier::F, _) | (Modifier::I, _) => Some(d),
            (Modifier::X, Slot::A) => Some(Slot::B),
            (Modifier::X, Slot::B) => Some(Slot::A),
            _ => None,
        }
    }

    /// The source field paired with destination field `d`, if any.
    pub fn source_of(self, d: Slot) -> (r: Option<Slot>)
        ensures
            r == self.feeds(d),
    {
        match self {
            Modifier::A => match d {
                Slot::A => Some(Slot::A),
                Slot::B => None,
            },
            Modifier::B => match d {
                Slot::A => None,
                Slot::B => Some(Slot::B),
            },
            Modifier::AB => match d {
                Slot::A => None,
                Slot::B => Some(Slot::A),
            },
            Modifier::BA => match d {
                Slot::A => Some(Slot::B),
                Slot::B => None,
            },
            Modifier::F | Modifier::I => Some(d),
            Modifier::X => match d {
                Slot::A => Some(Slot::B),
                Slot::B => Some(Slot::A),
            },
        }
    }
}

impl Param {
    /// A field from its addressing mode and its integer.
    pub fn new(addr: Address, val: i32) -> (r: Param)
        ensures
            r == (Param { addr, val }),
    {
        Param { addr, val }
    }
}

impl Cell {
    /// The field of the cell at position `s`.
    pub open spec fn param(self, s: Slot) -> Param {
        match s {
            Slot::A => self.a,
            Slot::B => self.b,
        }
    }

    /// The cell with the integers of its two fields replaced.
    pub open spec fn with_values(self, a: i32, b: i32) -> Cell {
        Cell {
            ins: self.ins,
            modifier: self.modifier,
            a: Param { addr: self.a.addr, val: a },
            b: Param { addr: self.b.addr, val: b },
        }
    }

    /// The neutral cell that a fresh core is filled with: `DAT.F #0, #0`.
    pub open spec fn blank() -> Cell {
        Cell {
            ins: Instruction::DAT,
            modifier: Modifier::F,
            a: Param { addr: Address::Immediate, val: 0 },
            b: Param { addr: Address::Immediate, val: 0 },
        }
    }

    /// A cell from its parts. Without an explicit modifier the cell gets the
    /// one that `default_modifier` infers from the instruction and the two
    /// addressing modes.
    pub fn new(ins: Instruction, opt_modifier: Option<Modifier>, a: Param, b: Param) -> (r: Cell)
        ensures
            r.ins == ins,
            r.a == a,
            r.b == b,
            r.modifier == match opt_modifier {
                Some(m) => m,
                None => default_modifier(ins, a.addr, b.addr),
            },
    {
        let modifier = match opt_modifier {
            Some(modifier) => modifier,
            None => Modifier::infer(ins, a.addr, b.addr),
        };
        Cell { ins, modifier, a, b }
    }

    /// The field of the cell at position `s`.
    pub fn field(&self, s: Slot) -> (r: Param)
        ensures
            r == self.param(s),
    {
        match s {
            Slot::A => self.a,
            Slot::B => self.b,
        }
    }
}

} // verus!
