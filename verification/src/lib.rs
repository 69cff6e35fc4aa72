//! A Redcode virtual machine in the tradition of Core War: a circular core of
//! cells and an engine that executes one process in it, cell by cell.
//!
//! Every function of the library carries a contract that Verus proves of its
//! body. The contracts speak of a mathematical model of the machine:
//!
//! - [`cell`] holds the data of a cell and the rule that infers a modifier
//!   for a cell written without one;
//! - [`arith`] holds the arithmetic of the circle and of 32-bit fields;
//! - [`semantics`] says, as a function of the core and an index, what
//!   executing one cell does;
//! - [`state`] says what loading a program and running a number of cells do;
//! - [`mars`] is the machine itself;
//! - [`laws`] states and proves what holds of the model in general.
//!
//! The engine makes these choices where Redcode leaves room:
//!
//! - an immediate operand is a literal: read through it, every field shows
//!   its integer; nothing can be stored into it, and it cannot stand for a
//!   whole cell;
//! - fields are signed 32-bit integers; `ADD`, `SUB`, `MUL`, `DIV` and `DJN`
//!   wrap around, and division rounds towards zero;
//! - `DIV` and `MOD` by zero fail, and a failing cell writes nothing;
//! - `JMZ` jumps where every selected field is zero, `JMN` and `DJN` where
//!   every selected field is non-zero;
//! - on numbers, the modifier `I` selects both fields, as `F` does;
//! - `SPL` and the pre-decrement and post-increment modes are refused.

pub mod arith;
pub mod cell;
pub mod error;
pub mod laws;
pub mod mars;
pub mod semantics;
pub mod state;

pub use cell::{Address, Cell, Instruction, Modifier, Param, Slot};
pub use error::MarsError;
pub use mars::{Mars, Summary};
pub use state::{State, Status};
