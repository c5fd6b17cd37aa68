//! Code generation for Ohua dataflow graphs and the operators of the Ohua runtime.
#![allow(non_snake_case)]

pub mod text;
pub mod codegen;
pub mod seqs;
pub mod order;
pub mod runtime;
pub mod legacy;
pub mod template;
