use crate::arith::{
    lemma_wrap_inverse, reduce, wrap_index, wrapping_difference, wrapping_product, wrapping_quotient,
    wrapping_remainder, wrapping_sum,
};
use crate::cell::{Address, Cell, Instruction, Modifier, Param, Slot};
use crate::error::MarsError;
use crate::semantics::{compute, passes, resolve, step, value};
use crate::state::{distance, loaded, State, Status};
use vstd::prelude::*;

verus! {

/// The sum of a bounded run: the number of cells executed and whether the
/// process was still alive after the last of them.
#[derive(Clone, Copy, Debug, PartialEq, Eq, Structural)]
pub struct Summary {
    pub steps: usize,
    pub status: Status,
}

/// A Memory Array Redcode Simulator with a single process: a circular core of
/// cells and the pointer to the cell that executes next.
#[derive(Debug)]
pub struct Mars {
    core: Vec<Cell>,
    iptr: usize,
}

impl View for Mars {
    type V = State;

    closed spec fn view(&self) -> State {
        State { core: self.core@, iptr: self.iptr as int }
    }
}

impl Mars {
    /// A machine of `size` cells, each of them `DAT.F #0, #0`, with the
    /// instruction pointer at cell 0.
    pub fn new(size: usize) -> (r: Mars)
        requires
            size > 0,
        ensures
            r@.wf(),
            r@.core.len() == size,
            r@.iptr == 0,
            forall|i: int| 0 <= i < size ==> r@.core[i] == Cell::blank(),
    {
        let default = Cell::new(
            Instruction::DAT,
            None,
            Param::new(Address::Immediate, 0),
            Param::new(Address::Immediate, 0),
        );
        let mut core: Vec<Cell> = Vec::new();
        let mut i: usize = 0;
        while i < size
            invariant
                i <= size,
                core.len() == i,
                default == Cell::blank(),
                forall|k: int| 0 <= k < i ==> core@[k] == Cell::blank(),
            decreases size - i,
        {
            core.push(default);
            i += 1;
        }
        Mars { core, iptr: 0 }
    }

    /// Writes `warrior` into the core from cell 0 on. A program longer than
    /// the core is refused, and the core then stays as it was.
    pub fn load(&mut self, warrior: Vec<Cell>) -> (r: Result<(), MarsError>)
        requires
            old(self)@.wf(),
        ensures
            final(self)@.wf(),
            final(self)@.iptr == old(self)@.iptr,
            final(self)@.core.len() == old(self)@.core.len(),
            match r {
                Ok(_) => warrior@.len() <= old(self)@.core.len() && final(self)@.core
                    == warrior@ + old(self)@.core.subrange(
                    warrior@.len() as int,
                    old(self)@.core.len() as int,
                ),
                Err(e) => e == MarsError::LoadOverflow && warrior@.len() > old(self)@.core.len()
                    && final(self)@ == old(self)@,
            },
    {
        let r = self.load_at(&warrior, 0);
        proof {
            if r is Ok {
                let n = old(self)@.core.len() as int;
                assert forall|i: int| 0 <= i < n implies #[trigger] distance(0, i, n) == i by {
                    vstd::arithmetic::div_mod::lemma_small_mod(i as nat, n as nat);
                }
                assert(self@.core =~= warrior@ + old(self)@.core.subrange(
                    warrior@.len() as int,
                    n,
                ));
            }
        }
        r
    }

    /// Writes `warrior` into the core from cell `origin` on, going round the
    /// end of the core to its start. A program longer than the core is
    /// refused, and the core then stays as it was.
    pub fn load_at(&mut self, warrior: &Vec<Cell>, origin: usize) -> (r: Result<(), MarsError>)
        requires
            old(self)@.wf(),
        ensures
            final(self)@.wf(),
            final(self)@.iptr == old(self)@.iptr,
            final(self)@.core.len() == old(self)@.core.len(),
            match r {
                Ok(_) => warrior@.len() <= old(self)@.core.len() && final(self)@.core == loaded(
                    old(self)@.core,
                    warrior@,
                    origin as int,
                ),
                Err(e) => e == MarsError::LoadOverflow && warrior@.len() > old(self)@.core.len()
                    && final(self)@ == old(self)@,
            },
    {
        let n = self.core.len();
        if warrior.len() > n {
            return Err(MarsError::LoadOverflow);
        }
        let ghost before = self.core@;
        let mut k: usize = 0;
        while k < warrior.len()
            invariant
                k <= warrior.len() <= n,
                n == self.core.len(),
                n == before.len(),
                self.iptr == old(self).iptr,
                forall|i: int|
                    0 <= i < n ==> #[trigger] self.core@[i] == if distance(
                        origin as int,
                        i,
                        n as int,
                    ) < k {
                        warrior@[distance(origin as int, i, n as int)]
                    } else {
                        before[i]
                    },
            decreases warrior.len() - k,
        {
            let idx = reduce(origin as i128 + k as i128, n);
            proof {
                assert forall|i: int| 0 <= i < n implies (#[trigger] distance(
                    origin as int,
                    i,
                    n as int,
                ) == k) == (i == idx) by {
                    lemma_wrap_inverse(origin as int, k as int, n as int, i);
                }
            }
            self.core.set(idx, warrior[k]);
            k += 1;
        }
        assert(self.core@ =~= loaded(before, warrior@, origin as int));
        Ok(())
    }

    /// Moves the instruction pointer to `iptr`, counted around the circle of
    /// the core.
    pub fn set_iptr(&mut self, iptr: usize)
        requires
            old(self)@.wf(),
        ensures
            final(self)@.wf(),
            final(self)@.core == old(self)@.core,
            final(self)@.iptr == wrap_index(iptr as int, old(self)@.core.len() as int),
    {
        self.iptr = iptr % self.core.len();
    }

    /// Executes the cell under the instruction pointer and moves the pointer
    /// to its successor. After `DAT`, and on failure, the pointer stays.
    pub fn step(&mut self) -> (r: Result<Status, MarsError>)
        requires
            old(self)@.wf(),
        ensures
            final(self)@.wf(),
            final(self)@.core.len() == old(self)@.core.len(),
            final(self)@ == old(self)@.advance(),
            r == old(self)@.status(),
    {
        let iptr = self.iptr;
        match self.execute(iptr) {
            Ok(Some(next)) => {
                self.iptr = next;
                Ok(Status::Running)
            },
            Ok(None) => Ok(Status::Halted),
            Err(e) => Err(e),
        }
    }

    /// Executes cells until one halts or fails, and at most `max_steps` of
    /// them.
    pub fn run(&mut self, max_steps: usize) -> (r: Result<Summary, MarsError>)
        requires
            old(self)@.wf(),
        ensures
            final(self)@.wf(),
            final(self)@.core.len() == old(self)@.core.len(),
            final(self)@ == old(self)@.run(max_steps as nat).state,
            match r {
                Ok(sum) => old(self)@.run(max_steps as nat).end == Ok::<Status, MarsError>(
                    sum.status,
                ) && sum.steps == old(self)@.run(max_steps as nat).steps,
                Err(e) => old(self)@.run(max_steps as nat).end == Err::<Status, MarsError>(e),
            },
    {
        let ghost start = self@;
        let mut done: usize = 0;
        while done < max_steps
            invariant
                done <= max_steps,
                self@.wf(),
                self@.core.len() == start.core.len(),
                start == old(self)@,
                start.run(max_steps as nat).state == self@.run((max_steps - done) as nat).state,
                start.run(max_steps as nat).end == self@.run((max_steps - done) as nat).end,
                start.run(max_steps as nat).steps == done + self@.run(
                    (max_steps - done) as nat,
                ).steps,
            decreases max_steps - done,
        {
            match self.step() {
                Ok(Status::Running) => {
                    done += 1;
                },
                Ok(Status::Halted) => {
                    return Ok(Summary { steps: done + 1, status: Status::Halted });
                },
                Err(e) => {
                    return Err(e);
                },
            }
        }
        Ok(Summary { steps: done, status: Status::Running })
    }

    /// The number of cells of the core.
    pub fn size(&self) -> (r: usize)
        requires
            self@.wf(),
        ensures
            r == self@.core.len(),
            r > 0,
    {
        self.core.len()
    }

    /// The instruction pointer.
    pub fn iptr(&self) -> (r: usize)
        requires
            self@.wf(),
        ensures
            r == self@.iptr,
            r < self@.core.len(),
    {
        self.iptr
    }

    /// The cells of the core, in order.
    pub fn cells(&self) -> (r: &Vec<Cell>)
        ensures
            r@ == self@.core,
    {
        &self.core
    }

    /// The cell at `idx`, counted around the circle of the core.
    pub fn cell(&self, idx: usize) -> (r: Cell)
        requires
            self@.wf(),
        ensures
            r == self@.core[wrap_index(idx as int, self@.core.len() as int)],
    {
        self.core[idx % self.core.len()]
    }

    /// The index `add` places after `iptr` on the circle of the core.
    pub fn add_iptr(&self, iptr: usize, add: i32) -> (r: usize)
        requires
            self@.wf(),
        ensures
            r == wrap_index(iptr + add, self@.core.len() as int),
            r < self@.core.len(),
    {
        reduce(iptr as i128 + add as i128, self.core.len())
    }

    /// The core index that operand `slot` of the cell at `iptr` designates.
    pub fn param(&self, iptr: usize, slot: Slot) -> (r: Result<usize, MarsError>)
        requires
            self@.wf(),
            iptr < self@.core.len(),
        ensures
            match r {
                Ok(t) => t < self@.core.len() && resolve(self@.core, iptr as int, slot) == Ok::<
                    int,
                    MarsError,
                >(t as int),
                Err(e) => resolve(self@.core, iptr as int, slot) == Err::<int, MarsError>(e),
            },
    {
        let param = self.core[iptr].field(slot);
        match param.addr {
            Address::Immediate => Ok(iptr),
            Address::Direct => Ok(self.add_iptr(iptr, param.val)),
            Address::Indirect => {
                let ptrcell = self.add_iptr(iptr, param.val);
                let offset = self.core[ptrcell].field(slot).val;
                Ok(reduce(iptr as i128 + param.val as i128 + offset as i128, self.core.len()))
            },
            Address::PreIncIndirect | Address::PostIncIndirect => Err(
                MarsError::UnsupportedOperation,
            ),
        }
    }

    /// The integers read as A-field and as B-field through operand `slot` of
    /// the cell at `iptr`, which designates the cell at `ptr`.
    fn values(&self, iptr: usize, slot: Slot, ptr: usize) -> (r: (i32, i32))
        requires
            iptr < self@.core.len(),
            resolve(self@.core, iptr as int, slot) == Ok::<int, MarsError>(ptr as int),
            ptr < self@.core.len(),
        ensures
            r.0 == value(self@.core, iptr as int, slot, Slot::A),
            r.1 == value(self@.core, iptr as int, slot, Slot::B),
    {
        let param = self.core[iptr].field(slot);
        match param.addr {
            Address::Immediate => (param.val, param.val),
            _ => (self.core[ptr].a.val, self.core[ptr].b.val),
        }
    }

    /// Executes the cell at `iptr` and returns the pointer to the cell that
    /// executes next, or `None` after `DAT`, which ends the process.
    ///
    /// A cell that asks for what the engine does not implement fails with
    /// `UnsupportedOperation`, and a division by zero with
    /// `ArithmeticFailure`. A failing cell writes nothing. The instruction
    /// pointer of the machine is left to the caller.
    pub fn execute(&mut self, iptr: usize) -> (r: Result<Option<usize>, MarsError>)
        requires
            old(self)@.wf(),
            iptr < old(self)@.core.len(),
        ensures
            final(self)@.wf(),
            final(self)@.core.len() == old(self)@.core.len(),
            final(self)@.core == step(old(self)@.core, iptr as int).core,
            final(self)@.iptr == old(self)@.iptr,
            match r {
                Ok(Some(n)) => n < old(self)@.core.len() && step(old(self)@.core, iptr as int).next
                    == Ok::<Option<int>, MarsError>(Some(n as int)),
                Ok(None) => step(old(self)@.core, iptr as int).next == Ok::<
                    Option<int>,
                    MarsError,
                >(None),
                Err(e) => step(old(self)@.core, iptr as int).next == Err::<Option<int>, MarsError>(
                    e,
                ),
            },
    {
        let cell = self.core[iptr];

        // Operands: both are resolved, and every value is read, before
        // anything is written.
        let aptr = self.param(iptr, Slot::A)?;
        let bptr = self.param(iptr, Slot::B)?;
        let src = self.values(iptr, Slot::A, aptr);
        let dst = self.values(iptr, Slot::B, bptr);
        let a_literal = cell.a.addr == Address::Immediate;
        let b_literal = cell.b.addr == Address::Immediate;
        let whole_cell = cell.modifier == Modifier::I;
        let via_a = cell.modifier.source_of(Slot::A);
        let via_b = cell.modifier.source_of(Slot::B);
        let next = self.add_iptr(iptr, 1);

        // Instruction
        match cell.ins {
            Instruction::DAT => Ok(None),
            Instruction::NOP => Ok(Some(next)),
            Instruction::SPL => Err(MarsError::UnsupportedOperation),
            Instruction::JMP => Ok(Some(aptr)),
            Instruction::MOV
            | Instruction::ADD
            | Instruction::SUB
            | Instruction::MUL
            | Instruction::DIV
            | Instruction::MOD
            | Instruction::DJN => {
                if b_literal {
                    return Err(MarsError::UnsupportedOperation);
                }
                if cell.ins == Instruction::MOV && whole_cell {
                    if a_literal {
                        return Err(MarsError::UnsupportedOperation);
                    }
                    let moved = self.core[aptr];
                    self.core.set(bptr, moved);
                    return Ok(Some(next));
                }
                let new_a = match combine(cell.ins, via_a, dst.0, src) {
                    Some(v) => v,
                    None => {
                        return Err(MarsError::ArithmeticFailure);
                    },
                };
                let new_b = match combine(cell.ins, via_b, dst.1, src) {
                    Some(v) => v,
                    None => {
                        return Err(MarsError::ArithmeticFailure);
                    },
                };
                let target = self.core[bptr];
                self.core.set(
                    bptr,
                    Cell {
                        ins: target.ins,
                        modifier: target.modifier,
                        a: Param { addr: target.a.addr, val: new_a },
                        b: Param { addr: target.b.addr, val: new_b },
                    },
                );
                if cell.ins == Instruction::DJN && permits(cell.ins, via_a, dst.0, src) && permits(
                    cell.ins,
                    via_b,
                    dst.1,
                    src,
                ) {
                    Ok(Some(aptr))
                } else {
                    Ok(Some(next))
                }
            },
            Instruction::JMZ | Instruction::JMN => {
                if permits(cell.ins, via_a, dst.0, src) && permits(cell.ins, via_b, dst.1, src) {
                    Ok(Some(aptr))
                } else {
                    Ok(Some(next))
                }
            },
            Instruction::CMP | Instruction::SLT => {
                let met = if cell.ins == Instruction::CMP && whole_cell {
                    if a_literal || b_literal {
                        return Err(MarsError::UnsupportedOperation);
                    }
                    self.core[aptr] == self.core[bptr]
                } else {
                    permits(cell.ins, via_a, dst.0, src) && permits(cell.ins, via_b, dst.1, src)
                };
                if met {
                    Ok(Some(self.add_iptr(iptr, 2)))
                } else {
                    Ok(Some(next))
                }
            },
        }
    }
}

/// The value of the pair `v` at position `s`.
spec fn select(v: (i32, i32), s: Slot) -> i32 {
    match s {
        Slot::A => v.0,
        Slot::B => v.1,
    }
}

/// The value of the pair `v` at position `s`.
fn pick(v: (i32, i32), s: Slot) -> (r: i32)
    ensures
        r == select(v, s),
{
    match s {
        Slot::A => v.0,
        Slot::B => v.1,
    }
}

/// The new value of a destination field that held `dst`: computed with the
/// source value that `via` selects from `src`, or `dst` itself where `via`
/// selects none. `None` stands for a division by zero.
fn combine(ins: Instruction, via: Option<Slot>, dst: i32, src: (i32, i32)) -> (r: Option<i32>)
    requires
        ins.stores(),
    ensures
        r == match via {
            None => Some(dst),
            Some(s) => if ins.divides() && select(src, s) == 0 {
                None
            } else {
                Some(compute(ins, dst, select(src, s)))
            },
        },
{
    match via {
        None => Some(dst),
        Some(s) => {
            let v = pick(src, s);
            match ins {
                Instruction::MOV => Some(v),
                Instruction::ADD => Some(wrapping_sum(dst, v)),
                Instruction::SUB => Some(wrapping_difference(dst, v)),
                Instruction::MUL => Some(wrapping_product(dst, v)),
                Instruction::DIV => if v == 0 {
                    None
                } else {
                    Some(wrapping_quotient(dst, v))
                },
                Instruction::MOD => if v == 0 {
                    None
                } else {
                    Some(wrapping_remainder(dst, v))
                },
                Instruction::DJN => Some(wrapping_difference(dst, 1)),
                _ => Some(dst),
            }
        },
    }
}

/// Whether a destination field that holds `dst` lets `ins` branch or skip,
/// given the source value that `via` selects from `src`. A field for which
/// `via` selects none never stands in the way.
fn permits(ins: Instruction, via: Option<Slot>, dst: i32, src: (i32, i32)) -> (r: bool)
    ensures
        r == match via {
            None => true,
            Some(s) => passes(ins, dst, select(src, s)),
        },
{
    match via {
        None => true,
        Some(s) => {
            let v = pick(src, s);
            match ins {
                Instruction::JMZ => dst == 0,
                Instruction::JMN => dst != 0,
                Instruction::DJN => wrapping_difference(dst, 1) != 0,
                Instruction::CMP => v == dst,
                Instruction::SLT => v < dst,
                _ => false,
            }
        },
    }
}

} // verus!
