//! Selection and rendering of the fenced code blocks of a README into Rust
//! source text, for macros that hand README examples to the compiler.
//!
//! - [`model`]: the configuration, the README and its blocks.
//! - [`select`]: which code blocks a selection takes.
//! - [`index`]: reading a block index from the text of a literal.
//! - [`tokens`]: asking whether texts split into Rust tokens.
//! - [`expand`]: planning and producing the generated source text.
//! - [`error`]: errors and their messages.

pub mod error;
pub mod expand;
pub mod index;
pub mod model;
pub mod select;
pub mod tokens;

pub use error::{ExtractError, ExtractErrorView, TokenPart};
pub use expand::{
    all_by_config_content_and_span, check_tokens, conclude, impl_filtered, load_file_to_const,
    nth_by_config_content_and_span, selected_by_config_content_and_span,
    tag_by_config_content_and_span, Plan, PlanView,
};
pub use index::code_block_index;
pub use model::{CodeBlock, CodeHeaders, Config, Readme, ReadmeBlock};
pub use select::{Selection, SelectionView, Selector};
pub use tokens::{first_rejected, TokenCheck};
