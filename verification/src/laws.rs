use crate::arith::{lemma_wrap_index_range, lemma_wrap_inverse, wrap_index};
use crate::cell::{default_modifier, Address, Cell, Instruction, Modifier, Slot};
use crate::error::MarsError;
use crate::semantics::{condition, fault, resolve, step, target};
use crate::state::{distance, loaded, State, Status};
use vstd::prelude::*;

verus! {

/// Loading keeps the size of the core and puts cell `k` of the program `k`
/// places after `origin`, around the circle.
pub proof fn lemma_loaded_places(core: Seq<Cell>, cells: Seq<Cell>, origin: int, k: int)
    requires
        cells.len() <= core.len(),
        0 <= k < cells.len(),
    ensures
        loaded(core, cells, origin).len() == core.len(),
        0 <= wrap_index(origin + k, core.len() as int) < core.len(),
        loaded(core, cells, origin)[wrap_index(origin + k, core.len() as int)] == cells[k],
{
    let n = core.len() as int;
    let i = wrap_index(origin + k, n);
    lemma_wrap_index_range(origin + k, n);
    lemma_wrap_inverse(origin, k, n, i);
    assert(distance(origin, i, n) == k);
}

/// Loading leaves every cell that the program does not reach as it was.
pub proof fn lemma_loaded_keeps_the_rest(core: Seq<Cell>, cells: Seq<Cell>, origin: int, i: int)
    requires
        0 <= i < core.len(),
        distance(origin, i, core.len() as int) >= cells.len(),
    ensures
        loaded(core, cells, origin)[i] == core[i],
{
}

/// A direct operand designates the cell that lies its integer away from the
/// executing cell, counted around the circle; negative integers count
/// backwards. The index is one of the core.
pub proof fn lemma_direct_wraps(core: Seq<Cell>, p: int, s: Slot)
    requires
        0 <= p < core.len(),
        core[p].param(s).addr is Direct,
    ensures
        resolve(core, p, s) == Ok::<int, MarsError>(
            (p + core[p].param(s).val) % (core.len() as int),
        ),
        0 <= target(core, p, s) < core.len(),
{
    lemma_wrap_index_range(p + core[p].param(s).val, core.len() as int);
}

/// Whatever the mode of an operand, the index it is resolved to is one of the
/// core.
pub proof fn lemma_target_in_core(core: Seq<Cell>, p: int, s: Slot)
    requires
        0 <= p < core.len(),
    ensures
        0 <= target(core, p, s) < core.len(),
{
    let n = core.len() as int;
    let f = core[p].param(s);
    lemma_wrap_index_range(p + f.val, n);
    lemma_wrap_index_range(p + f.val + core[wrap_index(p + f.val, n)].param(s).val, n);
}

/// A step neither grows nor shrinks the core, and the successor it names is a
/// cell of the core.
pub proof fn lemma_step_keeps_shape(core: Seq<Cell>, p: int)
    requires
        0 <= p < core.len(),
    ensures
        step(core, p).core.len() == core.len(),
        step(core, p).next matches Ok(Some(n)) ==> 0 <= n < core.len(),
{
    let n = core.len() as int;
    lemma_target_in_core(core, p, Slot::A);
    lemma_target_in_core(core, p, Slot::B);
    lemma_wrap_index_range(p + 1, n);
    lemma_wrap_index_range(p + 2, n);
}

/// A step that fails, and one that halts, leaves the core as it was.
pub proof fn lemma_step_is_whole(core: Seq<Cell>, p: int)
    requires
        0 <= p < core.len(),
    ensures
        !(step(core, p).next matches Ok(Some(_))) ==> step(core, p).core == core,
{
}

/// A step changes at most the cell that the B operand designates.
pub proof fn lemma_step_writes_destination_only(core: Seq<Cell>, p: int, i: int)
    requires
        0 <= p < core.len(),
        0 <= i < core.len(),
        i != target(core, p, Slot::B),
    ensures
        step(core, p).core[i] == core[i],
{
    lemma_target_in_core(core, p, Slot::B);
}

/// A run keeps the state well formed and the core at its size, and executes
/// no more cells than its budget.
pub proof fn lemma_run_keeps_shape(s: State, budget: nat)
    requires
        s.wf(),
    ensures
        s.run(budget).state.wf(),
        s.run(budget).state.core.len() == s.core.len(),
        s.run(budget).steps <= budget,
    decreases budget,
{
    lemma_step_keeps_shape(s.core, s.iptr);
    if budget > 0 && s.status() == Ok::<Status, MarsError>(Status::Running) {
        lemma_run_keeps_shape(s.advance(), (budget - 1) as nat);
    }
}

/// A run of `first + second` cells is a run of `first` cells followed, where
/// the process is still alive, by a run of `second` cells from where the first
/// run ended. Stepping cell by cell thus comes to the same as one bounded run.
pub proof fn lemma_run_splits(s: State, first: nat, second: nat)
    requires
        s.wf(),
    ensures
        s.run(first).end == Ok::<Status, MarsError>(Status::Running) ==> {
            let head = s.run(first);
            let tail = head.state.run(second);
            &&& head.steps == first
            &&& s.run(first + second).state == tail.state
            &&& s.run(first + second).end == tail.end
            &&& s.run(first + second).steps == first + tail.steps
        },
        s.run(first).end != Ok::<Status, MarsError>(Status::Running) ==> s.run(first + second)
            == s.run(first),
    decreases first,
{
    if first > 0 {
        lemma_step_keeps_shape(s.core, s.iptr);
        if s.status() == Ok::<Status, MarsError>(Status::Running) {
            lemma_run_splits(s.advance(), (first - 1) as nat, second);
        }
    }
}

/// The modifier inferred for a cell written without one, row by row: every
/// instruction with every pair of modes gets exactly one.
pub proof fn lemma_default_modifier_table(ins: Instruction, a: Address, b: Address)
    ensures
        ins is DAT || ins is NOP ==> default_modifier(ins, a, b) == Modifier::F,
        ins is MOV || ins is CMP ==> default_modifier(ins, a, b) == if a is Immediate {
            Modifier::AB
        } else if b is Immediate {
            Modifier::B
        } else {
            Modifier::I
        },
        ins is ADD || ins is SUB || ins is MUL || ins is DIV || ins is MOD ==> default_modifier(
            ins,
            a,
            b,
        ) == if a is Immediate {
            Modifier::AB
        } else if b is Immediate {
            Modifier::B
        } else {
            Modifier::F
        },
        ins is SLT ==> default_modifier(ins, a, b) == if a is Immediate {
            Modifier::AB
        } else {
            Modifier::B
        },
        ins is JMP || ins is JMZ || ins is JMN || ins is DJN || ins is SPL ==> default_modifier(
            ins,
            a,
            b,
        ) == Modifier::B,
{
}

/// Copying a whole cell twice is copying it once: where `MOV.I` at `p` has
/// copied between two different cells, and executing `p` again meets the same
/// instruction with the same source and destination, the second execution
/// leaves the core as the first left it.
pub proof fn lemma_mov_cell_idempotent(core: Seq<Cell>, p: int)
    requires
        0 <= p < core.len(),
        core[p].ins is MOV,
        core[p].modifier is I,
        fault(core, p) is None,
        target(core, p, Slot::A) != target(core, p, Slot::B),
        ({
            let once = step(core, p).core;
            &&& once[p].ins is MOV
            &&& once[p].modifier is I
            &&& fault(once, p) is None
            &&& target(once, p, Slot::A) == target(core, p, Slot::A)
            &&& target(once, p, Slot::B) == target(core, p, Slot::B)
        }),
    ensures
        step(step(core, p).core, p).core == step(core, p).core,
{
    lemma_target_in_core(core, p, Slot::A);
    lemma_target_in_core(core, p, Slot::B);
    assert(step(step(core, p).core, p).core =~= step(core, p).core);
}

/// The hypotheses of `lemma_mov_cell_idempotent` hold of every `MOV.I` with
/// direct operands that copies between two different cells and does not
/// overwrite itself.
pub proof fn lemma_mov_cell_direct_idempotent(core: Seq<Cell>, p: int)
    requires
        0 <= p < core.len(),
        core[p].ins is MOV,
        core[p].modifier is I,
        core[p].a.addr is Direct,
        core[p].b.addr is Direct,
        target(core, p, Slot::A) != target(core, p, Slot::B),
        target(core, p, Slot::B) != p,
    ensures
        step(core, p).next is Ok,
        step(step(core, p).core, p).core == step(core, p).core,
{
    lemma_target_in_core(core, p, Slot::A);
    lemma_target_in_core(core, p, Slot::B);
    lemma_mov_cell_idempotent(core, p);
}

/// In a core that holds nothing but `DAT.F #0, #0`, the cell under any
/// instruction pointer halts the process and leaves the core untouched.
pub proof fn lemma_blank_core_halts(core: Seq<Cell>, p: int)
    requires
        0 <= p < core.len(),
        forall|i: int| 0 <= i < core.len() ==> core[i] == Cell::blank(),
    ensures
        step(core, p).next == Ok::<Option<int>, MarsError>(None),
        step(core, p).core == core,
{
}

/// A run in a core that holds nothing but `DAT.F #0, #0` ends after exactly
/// one cell, halted, wherever it starts and whatever its budget.
pub proof fn lemma_blank_core_runs_one_step(s: State, budget: nat)
    requires
        s.wf(),
        forall|i: int| 0 <= i < s.core.len() ==> s.core[i] == Cell::blank(),
        budget > 0,
    ensures
        s.run(budget).end == Ok::<Status, MarsError>(Status::Halted),
        s.run(budget).steps == 1,
        s.run(budget).state == s,
{
    lemma_blank_core_halts(s.core, s.iptr);
}

/// `JMZ` and `JMN` are complements where the modifier selects a single field:
/// of two cores that differ only in that the cell at `p` is `JMZ` in the one
/// and `JMN` in the other, exactly one takes its jump, and the other goes on
/// to the next cell. Both resolve their operands alike and fail alike.
pub proof fn lemma_jmz_jmn_complement(core: Seq<Cell>, p: int)
    requires
        0 <= p < core.len(),
        core[p].ins is JMZ,
        !(core[p].modifier is F || core[p].modifier is X || core[p].modifier is I),
    ensures
        ({
            let c = core[p];
            let other = core.update(
                p,
                Cell { ins: Instruction::JMN, modifier: c.modifier, a: c.a, b: c.b },
            );
            let jump = Ok::<Option<int>, MarsError>(Some(target(core, p, Slot::A)));
            let pass = Ok::<Option<int>, MarsError>(Some(wrap_index(p + 1, core.len() as int)));
            &&& condition(core, p) != condition(other, p)
            &&& fault(other, p) == fault(core, p)
            &&& target(other, p, Slot::A) == target(core, p, Slot::A)
            &&& target(other, p, Slot::B) == target(core, p, Slot::B)
            &&& fault(core, p) is None ==> if condition(core, p) {
                step(core, p).next == jump && step(other, p).next == pass
            } else {
                step(core, p).next == pass && step(other, p).next == jump
            }
        }),
{
    let n = core.len() as int;
    let c = core[p];
    // the cells that the two operands go through, and those they designate
    lemma_wrap_index_range(p + c.a.val, n);
    lemma_wrap_index_range(p + c.b.val, n);
    lemma_target_in_core(core, p, Slot::A);
    lemma_target_in_core(core, p, Slot::B);
}

/// Under no modifier do `JMZ` and `JMN` both take their jump on the same
/// destination: every modifier selects a field, and no field is both zero and
/// non-zero.
pub proof fn lemma_jmz_jmn_exclusive(core: Seq<Cell>, p: int)
    requires
        0 <= p < core.len(),
        core[p].ins is JMZ,
    ensures
        ({
            let c = core[p];
            let other = core.update(
                p,
                Cell { ins: Instruction::JMN, modifier: c.modifier, a: c.a, b: c.b },
            );
            !(condition(core, p) && condition(other, p))
        }),
{
    let n = core.len() as int;
    let c = core[p];
    lemma_wrap_index_range(p + c.b.val, n);
    lemma_target_in_core(core, p, Slot::B);
}

} // verus!
