use crate::arith::{trunc_div, trunc_rem, wrap_i32, wrap_index};
use crate::cell::{Address, Cell, Instruction, Slot};
use crate::error::MarsError;
use vstd::prelude::*;

verus! {

impl Instruction {
    /// The instructions that write into fields of their destination.
    pub open spec fn stores(self) -> bool {
        self is MOV || self is ADD || self is SUB || self is MUL || self is DIV || self is MOD
            || self is DJN
    }

    /// The instructions that divide by a field of their source.
    pub open spec fn divides(self) -> bool {
        self is DIV || self is MOD
    }
}

impl Cell {
    /// Whether the cell copies or compares cells as a whole.
    pub open spec fn whole_cell(self) -> bool {
        (self.ins is MOV || self.ins is CMP) && self.modifier is I
    }
}

/// The core index that operand `s` of the cell at `p` designates.
///
/// An immediate operand designates the executing cell itself; a direct one the
/// cell at its offset from `p`; an indirect one the cell at the offset that the
/// same field of the directly designated cell adds to that. Every sum is taken
/// on the circle of the core. The two remaining modes are not resolved.
pub open spec fn resolve(core: Seq<Cell>, p: int, s: Slot) -> Result<int, MarsError> {
    let f = core[p].param(s);
    let n = core.len() as int;
    match f.addr {
        Address::Immediate => Ok(p),
        Address::Direct => Ok(wrap_index(p + f.val, n)),
        Address::Indirect => Ok(
            wrap_index(p + f.val + core[wrap_index(p + f.val, n)].param(s).val, n),
        ),
        Address::PreIncIndirect | Address::PostIncIndirect => Err(
            MarsError::UnsupportedOperation,
        ),
    }
}

/// The index that `resolve` gives, and `p` where it gives none.
pub open spec fn target(core: Seq<Cell>, p: int, s: Slot) -> int {
    match resolve(core, p, s) {
        Ok(t) => t,
        Err(_) => p,
    }
}

/// The integer read as field `field` through operand `s` of the cell at `p`:
/// the operand's own integer where the operand is immediate, whichever field
/// is asked for, and otherwise that field of the designated cell.
pub open spec fn value(core: Seq<Cell>, p: int, s: Slot, field: Slot) -> i32 {
    let f = core[p].param(s);
    if f.addr is Immediate {
        f.val
    } else {
        core[target(core, p, s)].param(field).val
    }
}

/// What a storing instruction makes of a destination value `dst` and the
/// source value `src` paired with it. Sums, differences, products and
/// quotients wrap around in 32 bits; division rounds towards zero.
pub open spec fn compute(ins: Instruction, dst: i32, src: i32) -> i32 {
    match ins {
        Instruction::MOV => src,
        Instruction::ADD => wrap_i32(dst + src),
        Instruction::SUB => wrap_i32(dst - src),
        Instruction::MUL => wrap_i32(dst * src),
        Instruction::DIV => wrap_i32(trunc_div(dst as int, src as int)),
        Instruction::MOD => wrap_i32(trunc_rem(dst as int, src as int)),
        Instruction::DJN => wrap_i32(dst - 1),
        _ => dst,
    }
}

/// Whether destination field `d` of the cell at `p` would be divided by zero.
pub open spec fn zero_divisor(core: Seq<Cell>, p: int, d: Slot) -> bool {
    core[p].modifier.feeds(d) matches Some(s) && value(core, p, Slot::A, s) == 0
}

/// The failure that executing the cell at `p` ends in, if any. Nothing is
/// written when there is one.
///
/// Unsupported are: an operand in a mode that is not resolved; `SPL`; a store
/// into an immediate destination; a whole-cell copy or comparison with an
/// immediate operand. Of what is supported, only a division by zero fails.
pub open spec fn fault(core: Seq<Cell>, p: int) -> Option<MarsError> {
    let c = core[p];
    if !c.a.addr.supported() || !c.b.addr.supported() || c.ins is SPL {
        Some(MarsError::UnsupportedOperation)
    } else if c.ins.stores() && c.b.addr is Immediate {
        Some(MarsError::UnsupportedOperation)
    } else if c.whole_cell() && (c.a.addr is Immediate || c.b.addr is Immediate) {
        Some(MarsError::UnsupportedOperation)
    } else if c.ins.divides() && (zero_divisor(core, p, Slot::A) || zero_divisor(
        core,
        p,
        Slot::B,
    )) {
        Some(MarsError::ArithmeticFailure)
    } else {
        None
    }
}

/// Field `d` of the destination after the cell at `p` has stored: computed
/// from the old value and the paired source value where the modifier selects
/// `d`, and the old value where it does not.
pub open spec fn result_field(core: Seq<Cell>, p: int, d: Slot) -> i32 {
    let c = core[p];
    let old_value = value(core, p, Slot::B, d);
    match c.modifier.feeds(d) {
        Some(s) => compute(c.ins, old_value, value(core, p, Slot::A, s)),
        None => old_value,
    }
}

/// The core after the cell at `p` has executed without failure. Only the
/// destination cell can change, and every value is read from `core` as it was
/// before.
pub open spec fn stored(core: Seq<Cell>, p: int) -> Seq<Cell> {
    let c = core[p];
    let dst = target(core, p, Slot::B);
    if !c.ins.stores() {
        core
    } else if c.whole_cell() {
        core.update(dst, core[target(core, p, Slot::A)])
    } else {
        core.update(
            dst,
            core[dst].with_values(result_field(core, p, Slot::A), result_field(core, p, Slot::B)),
        )
    }
}

/// Whether a destination value `dst`, with the source value `src` paired
/// with it, lets `ins` branch or skip: `JMZ` asks for zero and `JMN` for
/// non-zero; `DJN` asks for non-zero after its decrement; `CMP` for equality
/// and `SLT` for a source value below the destination value.
pub open spec fn passes(ins: Instruction, dst: i32, src: i32) -> bool {
    match ins {
        Instruction::JMZ => dst == 0,
        Instruction::JMN => dst != 0,
        Instruction::DJN => compute(Instruction::DJN, dst, src) != 0,
        Instruction::CMP => src == dst,
        Instruction::SLT => src < dst,
        _ => false,
    }
}

/// Whether destination field `d` lets the cell at `p` branch or skip. A field
/// that the modifier does not select never stands in the way.
pub open spec fn field_passes(core: Seq<Cell>, p: int, d: Slot) -> bool {
    match core[p].modifier.feeds(d) {
        None => true,
        Some(s) => passes(core[p].ins, value(core, p, Slot::B, d), value(core, p, Slot::A, s)),
    }
}

/// Whether the cell at `p` takes its jump (`JMZ`, `JMN`, `DJN`) or skips the
/// next cell (`CMP`, `SLT`): every selected field passes, or, for a whole-cell
/// comparison, the two designated cells are equal.
pub open spec fn condition(core: Seq<Cell>, p: int) -> bool {
    if core[p].whole_cell() {
        core[target(core, p, Slot::A)] == core[target(core, p, Slot::B)]
    } else {
        field_passes(core, p, Slot::A) && field_passes(core, p, Slot::B)
    }
}

/// Where execution goes after the cell at `p`, or `None` where it ends.
pub open spec fn successor(core: Seq<Cell>, p: int) -> Option<int> {
    let n = core.len() as int;
    match core[p].ins {
        Instruction::DAT => None,
        Instruction::JMP => Some(target(core, p, Slot::A)),
        Instruction::JMZ | Instruction::JMN | Instruction::DJN => Some(
            if condition(core, p) {
                target(core, p, Slot::A)
            } else {
                wrap_index(p + 1, n)
            },
        ),
        Instruction::CMP | Instruction::SLT => Some(
            if condition(core, p) {
                wrap_index(p + 2, n)
            } else {
                wrap_index(p + 1, n)
            },
        ),
        _ => Some(wrap_index(p + 1, n)),
    }
}

/// What one execution leaves behind: the core, and either a failure or the
/// next instruction pointer (`None` after `DAT`).
pub struct Step {
    pub core: Seq<Cell>,
    pub next: Result<Option<int>, MarsError>,
}

/// The effect of executing the cell at `p`. A failing step changes nothing.
pub open spec fn step(core: Seq<Cell>, p: int) -> Step {
    match fault(core, p) {
        Some(e) => Step { core, next: Err(e) },
        None => Step { core: stored(core, p), next: Ok(successor(core, p)) },
    }
}

} // verus!
