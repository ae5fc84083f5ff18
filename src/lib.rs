//! A single-pass compiler and stack-based bytecode interpreter for a small
//! expression language of numbers, booleans and `nil`.
pub mod float;
pub mod parser;
pub mod scanner;
pub mod stack;
pub mod value;
pub mod vm;
