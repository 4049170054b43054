//! A graph of typed operations on loosely typed values (booleans, numbers, texts, JSON
//! lists and values), and its evaluation: a node's outputs are computed from its inputs,
//! each input reading the output it is linked to, computed once per pass, or its own value.
pub mod error;
pub mod evaluator;
pub mod graph;
pub mod laws;
pub mod state;
pub mod template;
pub mod text;
pub mod value;
pub mod wellformed;
