//! Generation of SPIR-V blocks from a shader intermediate representation.

pub mod block;
pub mod chains;
pub mod context;
pub mod declarations;
pub mod entry_point;
pub mod expression;
pub mod flow;
pub mod flow_laws;
pub mod function;
pub mod growth;
pub mod image;
pub mod image_laws;
pub mod index;
pub mod instruction;
pub mod ir;
pub mod laws;
pub mod meaning;
pub mod memory_laws;
pub mod operators;
pub mod pointer;
pub mod pointer_laws;
pub mod run;
pub mod statement;
pub mod steps;
pub mod types;
pub mod value_laws;
pub mod words;
pub mod writer;
