use crate::arith::wrap_index;
use crate::cell::Cell;
use crate::error::MarsError;
use crate::semantics::step;
use vstd::prelude::*;

verus! {

/// Whether the process is still alive.
#[derive(Clone, Copy, Debug, PartialEq, Eq, Structural)]
pub enum Status {
    /// The last cell executed named a successor.
    Running,
    /// The last cell executed was `DAT`.
    Halted,
}

/// The machine as contracts see it: the cells of the core in order, and the
/// instruction pointer.
pub struct State {
    pub core: Seq<Cell>,
    pub iptr: int,
}

/// What a bounded run comes to: the state it ends in, the number of cells it
/// executed, and how it ended.
pub struct Trace {
    pub state: State,
    pub steps: nat,
    pub end: Result<Status, MarsError>,
}

/// How many places after `origin` the index `i` lies on a circle of `size`
/// places.
pub open spec fn distance(origin: int, i: int, size: int) -> int {
    wrap_index(i - origin, size)
}

/// The core after `cells` have been written into it from index `origin` on,
/// around the circle: place `i` holds the cell of the program that falls on
/// it, and what it held before where none does.
pub open spec fn loaded(core: Seq<Cell>, cells: Seq<Cell>, origin: int) -> Seq<Cell> {
    Seq::new(
        core.len(),
        |i: int|
            {
                let k = distance(origin, i, core.len() as int);
                if k < cells.len() {
                    cells[k]
                } else {
                    core[i]
                }
            },
    )
}

impl State {
    /// The core is not empty and the instruction pointer lies in it.
    pub open spec fn wf(self) -> bool {
        0 <= self.iptr < self.core.len()
    }

    /// How executing the cell under the instruction pointer ends.
    pub open spec fn status(self) -> Result<Status, MarsError> {
        match step(self.core, self.iptr).next {
            Ok(Some(_)) => Ok(Status::Running),
            Ok(None) => Ok(Status::Halted),
            Err(e) => Err(e),
        }
    }

    /// The state after the cell under the instruction pointer has executed.
    /// The pointer moves only where the cell names a successor.
    pub open spec fn advance(self) -> State {
        let s = step(self.core, self.iptr);
        State {
            core: s.core,
            iptr: match s.next {
                Ok(Some(n)) => n,
                _ => self.iptr,
            },
        }
    }

    /// The run of at most `budget` cells from this state. It ends with the
    /// first cell that halts or fails, which counts among the cells executed,
    /// and is still `Running` where the budget ends it.
    pub open spec fn run(self, budget: nat) -> Trace
        decreases budget,
    {
        if budget == 0 {
            Trace { state: self, steps: 0, end: Ok(Status::Running) }
        } else {
            match self.status() {
                Ok(Status::Running) => {
                    let rest = self.advance().run((budget - 1) as nat);
                    Trace { state: rest.state, steps: rest.steps + 1, end: rest.end }
                },
                end => Trace { state: self.advance(), steps: 1, end },
            }
        }
    }
}

} // verus!
