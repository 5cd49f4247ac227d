//! Sparse-set component storage with component sharing, and the cursors
//! that walk one or several such storages in lock-step.

pub mod entity;
pub mod sparse;
pub mod storage;
pub mod sharing;
pub mod chunk_exact;
pub mod tight;
pub mod non_packed;
pub mod columns;
pub mod tuples;
pub mod arities;
