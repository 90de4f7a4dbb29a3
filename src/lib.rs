//! Extraction of copy-with metadata from annotated Dart classes.
//!
//! A class is annotated by a comment holding a magic token directly above
//! its declaration. The library walks the concrete syntax tree of a source
//! file, classifies which copy-with variant each annotated class asks for,
//! rebuilds the full type of each of its fields (generic arguments and
//! nullability included), and hands back the class descriptions in source
//! order, together with the values a code template reads of them.

pub mod types;
pub mod syntax;
pub mod type_expr;
pub mod declarations;
pub mod cst;
pub mod laws;
pub mod render;
pub mod watch;
