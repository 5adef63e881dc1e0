//! A source-to-source transformer for suspension-based message handlers.
//!
//! The library rewrites a sequentially written handler body that contains
//! explicit suspension points into a right-nested chain of continuation
//! callbacks, suitable for a single-threaded, message-driven scheduler with
//! no native support for suspending mid-function.

pub mod ast;
pub mod chain;
pub mod out;
pub mod handler;
pub mod laws;
pub mod rename;
pub mod transform;
