//! Static detection of conditions whose outcome is fixed by what is known
//! about the values of their operands.
//!
//! A function is given as a small syntax model ([`syntax`]). Its parameters
//! and local declarations become binding tables ([`bindings`]), names are
//! resolved through chains of bindings to value ranges ([`resolve`]), and each
//! comparison between two names is judged from how the two ranges relate
//! ([`range`], [`checker`]).
pub mod bindings;
pub mod checker;
pub mod range;
pub mod resolve;
pub mod samples;
pub mod syntax;
