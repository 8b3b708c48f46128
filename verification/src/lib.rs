//! Value and heap layer of an embeddable configuration-language interpreter.
//!
//! Values live in an index-addressed arena (`Heap`). During evaluation the
//! heap is mutable; at the end of a module's evaluation the reachable graph
//! is frozen into an immutable `FrozenHeap`, and during evaluation the graph
//! can be relocated into a fresh arena for compaction. Both copying passes
//! share a forwarding discipline that makes cyclic graphs safe to copy.

pub mod value;
pub mod num;
pub mod array;
pub mod error;
pub mod heap;
pub mod freeze;
pub mod trace;
pub mod slots;
pub mod traits;
pub mod repr;
