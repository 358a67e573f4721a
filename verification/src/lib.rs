//! Decision logic of a JavaScript optimizer: annotation flags, comment
//! markers, hoisting scopes, statement edits, expression deduplication,
//! global tables, extern descriptions and property renaming.
pub mod annotation;
pub mod chunk;
pub mod comments;
pub mod dedupe;
pub mod expr_hash;
pub mod externs;
pub mod digest;
pub mod global_categories;
pub mod globals;
pub mod hoist;
pub mod module_externs;
pub mod module_hoist;
pub mod statements;
pub mod strmap;
pub mod url;
pub mod options;
pub mod property_names;
pub mod property_text;

pub use options::{ExternsOptions, GlobalsOptions, OptimizerError, OptimizerOptions, OptimizerOutput};
