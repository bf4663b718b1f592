//! Name-level dependency graph of hardware design units.
//!
//! The library records which design units (modules, packages, interfaces) a
//! set of SystemVerilog sources declares and which ones it instantiates, and
//! derives from the two tables the units that are declared but never used
//! (exports) and those that are used but never declared (missing).

pub mod frontend;
pub mod graph;
pub mod laws;
pub mod orchestrator;
pub mod syntax;
pub mod table;
pub mod unit;
pub mod visitor;
