use vstd::prelude::*;

use super::script::ScriptProgram;

verus! {

/// A point at which a rule runs, with its ordering and script.
#[derive(Debug, Clone)]
pub struct RuleHook {
    pub phase: Option<String>,
    pub priority: Option<i32>,
    pub index: Option<i32>,
    pub script: Option<ScriptProgram>,
}

/// A mechanical effect on a target.
#[derive(Debug, Clone)]
pub struct Effect {
    pub kind: String,
    pub target: String,
    pub value: Option<String>,
}

/// A condition that must hold before something can be taken or applied.
#[derive(Debug, Clone)]
pub struct Prerequisite {
    pub kind: String,
    pub expression: Option<String>,
}

/// An event, with an optional condition, that fires a rule.
#[derive(Debug, Clone)]
pub struct Trigger {
    pub event: String,
    pub condition: Option<String>,
}

} // verus!
