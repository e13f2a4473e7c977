//! A source-to-source compiler front end for a small indentation-scoped
//! scripting language. Source lines are lexed into tokens and an indentation
//! depth, then translated into C++ statements while tracking the block
//! nesting that the indentation implies. Each module yields a definition
//! file and, for non-entry modules, a declaration file plus a registration
//! block that makes top-level methods reachable through a string-keyed
//! dispatch table at run time.
#![verifier::loop_isolation(false)]

pub mod compiler;
pub mod emitter;
pub mod errors;
pub mod generator;
pub mod expression;
pub mod laws;
pub mod lexer;
pub mod text;
pub mod tokens;
