//! The value model: what a variable's value is, before rendering.

use indexmap::IndexMap;
use vstd::prelude::*;

verus! {

/// One concrete value for a variable, after per-shell resolution.
pub enum EnvVariableValue {
    /// A literal-with-expansions string, run through the segment pipeline.
    Text(String),
    /// An ordered list, one level of nesting flattened away, each element
    /// expanded independently, the results joined with `:`.
    List(Vec<Vec<String>>),
    /// As `List`, but marked as search-path data for dialects that
    /// distinguish path-typed variables.
    Path(Vec<String>),
    /// A toggle: `true` sets the variable to the literal `1`, `false` removes
    /// the variable.
    Flag(bool),
}

/// A variable's entry in the configuration: one value for every dialect, or
/// a per-dialect override map keyed by dialect name, with `_` the fallback.
pub enum EnvVariableOption {
    General(EnvVariableValue),
    Specific(IndexMap<String, EnvVariableValue>),
}

/// The ordered mapping from variable name to its entry; insertion order
/// determines output order.
pub type EnvironmentVariables = IndexMap<String, EnvVariableOption>;

} // verus!
