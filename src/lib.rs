//! Ownership primitives: a sole-owner cell, a reference-counted heap with
//! strong and weak handles, a run-time checked borrow cell, and a tree that
//! combines them with weak parent links; plus the small helpers around them.

#![allow(unused_imports)]

pub mod borrow_cell;
pub mod borrowing;
pub mod closures;
pub mod functions;
pub mod lifecycle;
pub mod lifetimes;
pub mod ownership;
pub mod shared;
pub mod slices;
pub mod structs;
pub mod text;
pub mod traits;
pub mod tree;
pub mod unique_cell;
