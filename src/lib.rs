//! The thread hierarchy of a kernel launch: a thread's place in its block and
//! grid, the flattened global index that identifies it, its per-axis global
//! position, and the block-wide votes that a barrier with a predicate returns.
//!
//! The hardware supplies four triples to every thread: its index in its
//! block, its block's index in the grid, the block's dimensions and the
//! grid's dimensions. This library takes them as a [`launch::ThreadContext`] and
//! computes from them.

pub mod dims;
pub mod launch;
pub mod vote;
