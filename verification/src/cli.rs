//! The command line of the program, as plain values.
use vstd::prelude::*;
use crate::text::string_from;

verus! {

/// The options of a run: the model provider, an optional model, an optional
/// project directory, and whether the sandbox must be strict.
pub struct Cli {
    pub provider: String,
    pub model: Option<String>,
    pub project: Option<String>,
    pub sandbox_strict: bool,
}

impl Cli {
    /// The project directory: the one given, or the current directory.
    pub fn project_path(&self) -> (p: String)
        ensures
            p@ == (match self.project {
                Some(d) => d@,
                None => "."@,
            }),
    {
        match &self.project {
            Some(d) => string_from(d.as_str()),
            None => string_from("."),
        }
    }
}

} // verus!
