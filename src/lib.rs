//! Word splitting for a line-oriented command interpreter: a scanner that
//! turns one line of text into words under shell quoting rules, and the small
//! decisions that the interpreter takes on those words.
pub mod token;
pub mod lexing;
pub mod text;
pub mod scanner;
pub mod fields;
pub mod line_parser;
pub mod laws;
pub mod shell;
pub mod commands;
