//! Context attached to log records of an operation.
use vstd::prelude::*;
use crate::text;

verus! {

/// The operation a log record belongs to, with the model and user it concerns.
#[derive(Debug, Clone)]
pub struct LogContext {
    pub operation: String,
    pub model_name: Option<String>,
    pub user_id: Option<String>,
}

impl LogContext {
    /// A context for an operation, with no model or user.
    pub fn new(operation: &str) -> (r: LogContext)
        ensures
            r.operation@ == operation@,
            r.model_name is None,
            r.user_id is None,
    {
        LogContext { operation: text::owned(operation), model_name: None, user_id: None }
    }

    /// The context with its model set.
    pub fn with_model(self, model_name: &str) -> (r: LogContext)
        ensures
            r.operation == self.operation,
            r.model_name matches Some(m) && m@ == model_name@,
            r.user_id == self.user_id,
    {
        LogContext { model_name: Some(text::owned(model_name)), ..self }
    }

    /// The context with its user set.
    pub fn with_user(self, user_id: &str) -> (r: LogContext)
        ensures
            r.operation == self.operation,
            r.model_name == self.model_name,
            r.user_id matches Some(u) && u@ == user_id@,
    {
        LogContext { user_id: Some(text::owned(user_id)), ..self }
    }
}

} // verus!
