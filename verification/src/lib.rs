//! Flow-sensitive type analysis of Lua programs.
//!
//! The crate answers the question "what type does this variable have here?" by walking a flow
//! tree backwards from a program point, and it binds the types of declarations while statements
//! are analysed.  What an expression or a type means is the business of a
//! [`db::SemanticModel`]; the crate decides what to ask it, in which order, and what follows
//! from the replies.

pub mod ids;
pub mod types;
pub mod syntax;
pub mod keyed;
pub mod infer;
pub mod flow_tree;
pub mod condition_flow;
pub mod cache;
pub mod db;
pub mod blank_model;
pub mod assignment_expr;
pub mod cast_flow;
pub mod flow_info;
pub mod flow_query;
pub mod walk;
pub mod type_at_flow;
pub mod allowance;
pub mod markers;
pub mod stats;
pub mod glob;
pub mod loader;
pub mod transcript;
pub mod local_laws;
pub mod assign_laws;
pub mod narrow_laws;
pub mod type_laws;
pub mod condition_laws;
pub mod visit_laws;
pub mod data_laws;
pub mod glob_laws;
