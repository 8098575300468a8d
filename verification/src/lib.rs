//! jsmeld: compiling and bundling JavaScript/TypeScript with SWC.
//!
//! The library keeps the decisions of compilation and bundling (option
//! handling, target selection, the style-hook pipeline, style modules and the
//! steps of a bundling run) in verified code, and calls SWC and `serde_json`
//! for the work that those crates do. The steps of a run that touch the file
//! system or SWC's module bundler are performed by a host that the caller passes in.

pub mod text;
pub mod errors;
pub mod util;
pub mod config;
pub mod compiler;
pub mod style;
pub mod bundler;
pub mod cli;

pub use bundler::{bundle, Bundler};
pub use compiler::Compiler;
pub use config::JSMeldOptions;
pub use errors::{JSMeldError, JSMeldResult};
