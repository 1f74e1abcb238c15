//! The core of a retargetable code generator: its intermediate
//! representation, the verifier that tells whether a function is built as it
//! should be, and the legalization of global values.
//!
//! A function is a data flow graph, which owns the instructions, the blocks
//! and the values, and a layout, which says where the blocks and the
//! instructions stand in the program. All of them are named by handles into
//! arenas; nothing points at anything.
//!
//! - `entity` holds the arenas and the trait of the handles.
//! - `ir` holds the handles, the types, the instructions, the data flow
//!   graph, the layout and the function.
//! - `verify` holds the verifier.
//! - `cursor` holds the position at which a pass inserts instructions.
//! - `flowgraph` holds the control flow graph.
//! - `isa` holds what a pass needs to know of the target.
//! - `legalizer` holds the expansion of global values.
//! - `text` holds what writes names and numbers.
//!
//! The contracts speak of mathematical values: a `DfgView` for the data flow
//! graph, a `LayoutView` for the layout, sequences for the arenas. What
//! holds of every function that is built through the library is the
//! well-formedness of these views; what a function must satisfy on top of
//! that to be valid is what the verifier checks.

pub mod cursor;
pub mod entity;
pub mod flowgraph;
pub mod ir;
pub mod isa;
pub mod legalizer;
pub mod text;
pub mod verify;
