use vstd::prelude::*;

verus! {

/// A runtime-neutral script, kept as opaque statements.
#[derive(Debug, Clone)]
pub struct ScriptProgram {
    pub source: Option<String>,
    pub statements: Vec<ScriptStatement>,
}

/// One statement of a script program.
#[derive(Debug, Clone)]
pub enum ScriptStatement {
    Opaque(String),
}

} // verus!
