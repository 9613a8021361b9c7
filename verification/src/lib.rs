//! Constraint-encoding layer for arithmetic relations proved with a
//! STARK-style backend.
//!
//! For each relation (bit decomposition of an integer, addition,
//! multiplication) the crate builds an execution trace — a rectangular table
//! of finite-field elements — and states the AIR: the polynomial identities
//! over trace rows that hold exactly when the trace is a valid witness of the
//! relation. The proving backend itself is an external collaborator; this
//! crate produces the (trace, public inputs) pair and the constraint rule,
//! and proves that generated traces satisfy their constraints.

pub mod field;
pub mod num2bits;
pub mod simple_add;
pub mod simple_mul;
pub mod trace;
