//! Declarative caching for asynchronous service functions.
//!
//! Two attributes rewrite a function around its own statements:
//!
//! - `cacheable` stands on a read. The cache is asked first; the function's own statements run
//!   only to load what it does not have, and the cache keeps what they give.
//! - `cache_evict` stands on a write. The function's own statements run first; where they give no
//!   error, the cache drops what the arguments say, and where they do, it stays as it is.
//!
//! [`cache_evict`] and [`cacheable`] take the tokens of the attribute's arguments and of the item
//! that it stands on, and give the tokens of the item that takes its place. The modules are:
//!
//! - [`tokens`]: token streams and what they hold;
//! - [`syntax`]: reading Rust syntax from them;
//! - [`args`]: the arguments of the attributes;
//! - [`code`]: the shape of the generated code, and [`emit`]: writing it;
//! - [`expand`]: the two attributes;
//! - [`meaning`]: what the generated code does when it runs;
//! - [`laws`]: what holds of all this;
//! - [`argument_laws`], [`code_laws`], [`expand_laws`], [`syntax_laws`]: what is read and written,
//!   told from what the user wrote, token for token;
//! - [`reading`]: a reader of the generated code, and that it finds there what `laws` speaks of.

pub mod args;
pub mod argument_laws;
pub mod code;
pub mod code_laws;
pub mod emit;
pub mod expand;
pub mod expand_laws;
pub mod laws;
pub mod meaning;
pub mod reading;
pub mod syntax;
pub mod syntax_laws;
pub mod tokens;

pub use expand::{cache_evict, cacheable};
