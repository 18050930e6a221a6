//! Machine-readable listings that the command line prints as JSON.
use vstd::prelude::*;

verus! {

/// The generators a project can run, built-in and custom.
#[derive(Debug, Clone)]
pub struct GeneratorList {
    pub server: Vec<String>,
    pub client: Vec<String>,
    /// Left out of the JSON when empty.
    pub custom: Vec<CustomGeneratorInfo>,
}

/// A custom generator as listed.
#[derive(Debug, Clone)]
pub struct CustomGeneratorInfo {
    pub name: String,
    pub scope: String,
    pub has_compile: bool,
}

} // verus!
