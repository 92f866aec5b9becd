//! Front end for a C-like shading language: translates a token stream into a
//! fully resolved, typed intermediate-representation module in a single
//! grammar-driven pass, with no intermediate syntax tree.

pub mod actions;
pub mod arena;
pub mod error;
pub mod helpers;
pub mod ir;
pub mod lookup;
pub mod parser;
pub mod program;
pub mod text;
pub mod token;
pub mod usage;
