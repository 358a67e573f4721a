use vstd::prelude::*;

verus! {

/// Which optimizations run.
#[derive(Default, Debug)]
pub struct OptimizerOptions {
    pub hoist: bool,
    pub dedupe: bool,
    pub globals: GlobalsOptions,
    pub externs: ExternsOptions,
    pub rename_properties: bool,
    /// Base URL for rewriting `new URL("./x", import.meta.url).href`;
    /// `None` leaves such expressions alone.
    pub url: Option<String>,
}

/// Global hoisting options: the global categories in use (`"js"`,
/// `"console"`, `"web"`, `"web:typed-css"`, ...), whether to hoist globals and
/// whether to share singleton constructions.
#[derive(Default, Debug)]
pub struct GlobalsOptions {
    pub categories: Vec<String>,
    pub hoist: bool,
    pub singletons: bool,
}

#[derive(Default, Debug)]
pub struct ExternsOptions {
    pub inline_const_values: bool,
}

/// Generated code and its source map.
#[derive(Debug)]
pub struct OptimizerOutput {
    pub code: String,
    pub map: String,
}

#[derive(Debug)]
pub enum OptimizerError {
    SyntaxError(String),
    SemanticError(String),
    OptimizerError(String),
    PropertyMapParseError(String),
}

/// The text that an error reads as: a fixed prefix, then the detail.
pub open spec fn error_message(e: OptimizerError) -> Seq<char> {
    match e {
        OptimizerError::SyntaxError(s) => "Unable to parse javascript file: "@ + s@,
        OptimizerError::SemanticError(s) => "Unable to parse javascript file: "@ + s@,
        OptimizerError::OptimizerError(s) => "Unable to optimize javascript file: "@ + s@,
        OptimizerError::PropertyMapParseError(s) => "Unable to parse property map: "@ + s@,
    }
}

impl OptimizerError {
    /// The error's text.
    pub fn message(&self) -> (r: String)
        ensures
            r@ == error_message(*self),
    {
        match self {
            OptimizerError::SyntaxError(s) => {
                let p = String::from_str("Unable to parse javascript file: ");
                p.concat(s.as_str())
            },
            OptimizerError::SemanticError(s) => {
                let p = String::from_str("Unable to parse javascript file: ");
                p.concat(s.as_str())
            },
            OptimizerError::OptimizerError(s) => {
                let p = String::from_str("Unable to optimize javascript file: ");
                p.concat(s.as_str())
            },
            OptimizerError::PropertyMapParseError(s) => {
                let p = String::from_str("Unable to parse property map: ");
                p.concat(s.as_str())
            },
        }
    }
}

} // verus!
