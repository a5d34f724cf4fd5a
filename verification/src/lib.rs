//! The front end of the zeta language: a tokenizer and a recursive-descent
//! parser that turn source text into a syntax tree, with contracts over
//! mathematical models of the text, the tokens and the tree. Beside them
//! stand the messages of their errors, a small back end that writes Rust
//! source, and the rules of the command line.

pub mod cli;
pub mod compiler;
pub mod errors;
pub mod frontend;
pub mod grammar;
pub mod laws;
pub mod ops;
pub mod parser;
pub mod progress;
pub mod render;
pub mod scanner;
pub mod text;
pub mod tokenizer;
pub mod types;

pub use cli::{App, AppCommand};
pub use compiler::{Compiler, RustCompiler};
pub use errors::{ParseError, ParseErrorView, TokenizeError, TokenizeErrorView};
pub use frontend::{front_end, has_stray_close, parse_source};
pub use ops::{
    BinOp, Expression, ExpressionView, Function, FunctionView, Import, ImportView, Program,
    ProgramView, Size, Statement, StatementView, Type, UnOp, Variable, VariableView,
};
pub use parser::Parser;
pub use scanner::TokenParser;
pub use text::IntegerFault;
pub use tokenizer::tokenize;
pub use types::{
    token_views, Keyword, ParserDescriptor, ParserDescriptorView, Token, TokenType, TokenTypeView,
    TokenView, Value, ValueView,
};
