//! A minimal interactive command shell: line parsing (redirection and
//! pipes), builtin dispatch, and a pipeline executor, with the pure logic
//! of the accompanying file tools.

pub mod builtins;
pub mod cat;
pub mod dispatch;
pub mod echo;
pub mod error;
pub mod exec;
pub mod fsops;
pub mod io;
pub mod ls;
pub mod parse;
pub mod repl;
pub mod text;
