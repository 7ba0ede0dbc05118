//! A line-oriented command interpreter core: splitting a line into a
//! command, resolving its keyword to a built-in, and deciding what one turn
//! of the read loop does with it.

pub mod tokenize;
pub mod builtin;
pub mod dispatch;
