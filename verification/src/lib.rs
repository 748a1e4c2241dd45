//! Lookup-argument core: operands are cut into chunks, each chunk is looked up
//! in small subtables, and a low-degree combiner rebuilds the instruction's
//! output from the looked-up values.

pub mod field;
pub mod chunk;
pub mod compare;
pub mod subtable;
pub mod instruction;
pub mod fingerprint;
pub mod memory;
pub mod degree;
