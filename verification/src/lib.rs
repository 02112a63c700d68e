//! Front end of a small declarative language that mixes module-level
//! declarations (`let`, `import`, ...) with an embedded XML-like view
//! syntax for UI element trees.
//!
//! The pipeline is lexer -> parser -> diagnostics: source text is turned
//! into a range-annotated abstract syntax tree, and every error is
//! both returned as a typed value and rendered as a human-readable
//! message with a line/column locator and a caret.

pub mod ast;
pub mod item;
pub mod log;
pub mod module_parser;
pub mod parser;
pub mod tokenizer;
pub mod view_parser;
