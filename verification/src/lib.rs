//! Generation of visitor traversal code from a structural description of a
//! tree-shaped data model.

pub mod gen;
pub mod generics;
pub mod ir;
pub mod lemmas;
pub mod names;
pub mod script;
pub mod text;
