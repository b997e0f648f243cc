use vstd::prelude::*;

verus! {

/// The structured error carried across the engine boundary.
#[derive(Debug, Clone, PartialEq, Eq)]
pub struct ScriptError {
    pub title: String,
    pub message: String,
    pub stack: String,
}

/// Every failure the core reports to its callers.
#[derive(Debug, Clone, PartialEq, Eq)]
pub enum EngineError {
    ContextNotFound,
    ContextAlreadyExists,
    EngineCapacityExceeded,
    ModuleNotFound,
    DispatchRejected,
    ScriptEvaluationError(ScriptError),
    UnexpectedShape { description: String, context: String },
    TooDeep,
}

impl ScriptError {
    pub fn new(title: String, message: String, stack: String) -> (r: ScriptError)
        ensures
            r.title == title,
            r.message == message,
            r.stack == stack,
    {
        ScriptError { title, message, stack }
    }
}

} // verus!
