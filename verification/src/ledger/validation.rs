//! Transaction validation. The node trusts the blocks that it follows, so
//! nothing is checked unless a mode asks for it.

use vstd::prelude::*;
use crate::ledger::state::LedgerState;

verus! {

/// Whether transactions are validated or trusted.
#[derive(Debug, Clone, Copy, PartialEq, Eq, Structural)]
pub enum ValidationMode {
    /// All transactions are trusted.
    Disabled,
    /// Structure only: fees, inputs and outputs, sizes.
    Phase1Only,
    /// Structure and scripts.
    Full,
}

/// Why a transaction could not be validated.
#[derive(Debug, Clone)]
pub enum ValidationError {
    NotImplemented(String),
    StructuralError(String),
    ScriptExecutionFailed(String),
}

impl ValidationError {
    pub open spec fn chars(&self) -> Seq<char> {
        match self {
            ValidationError::NotImplemented(m) => "Not implemented: "@ + m@,
            ValidationError::StructuralError(m) => "Structural error: "@ + m@,
            ValidationError::ScriptExecutionFailed(m) => "Script execution failed: "@ + m@,
        }
    }

    /// The error in words.
    pub fn text(&self) -> (r: String)
        ensures
            r@ == self.chars(),
    {
        match self {
            ValidationError::NotImplemented(m) => {
                let mut r = "Not implemented: ".to_string();
                r.append(m.as_str());
                r
            },
            ValidationError::StructuralError(m) => {
                let mut r = "Structural error: ".to_string();
                r.append(m.as_str());
                r
            },
            ValidationError::ScriptExecutionFailed(m) => {
                let mut r = "Script execution failed: ".to_string();
                r.append(m.as_str());
                r
            },
        }
    }
}

/// A transaction to validate.
#[derive(Debug, Clone)]
pub struct Transaction {}

impl LedgerState {
    /// Validates a transaction. Every transaction is valid where validation is
    /// disabled; the other modes cannot validate any.
    pub fn validate_transaction(&self, _tx: &Transaction, mode: ValidationMode) -> (r: Result<bool, ValidationError>)
        ensures
            match mode {
                ValidationMode::Disabled => r == Ok::<bool, ValidationError>(true),
                ValidationMode::Phase1Only => r matches Err(ValidationError::NotImplemented(m)) && m@
                    == "Phase-1 validation not yet implemented"@,
                ValidationMode::Full => r matches Err(ValidationError::NotImplemented(m)) && m@
                    == "Full validation not yet implemented"@,
            },
    {
        match mode {
            ValidationMode::Disabled => Ok(true),
            ValidationMode::Phase1Only => Err(
                ValidationError::NotImplemented("Phase-1 validation not yet implemented".to_string()),
            ),
            ValidationMode::Full => Err(
                ValidationError::NotImplemented("Full validation not yet implemented".to_string()),
            ),
        }
    }
}

/// What an error says: its kind, and the message.
pub proof fn law_errors_worded(e: ValidationError)
    ensures
        e matches ValidationError::NotImplemented(m) ==> e.chars() == "Not implemented: "@ + m@,
        e matches ValidationError::StructuralError(m) ==> e.chars() == "Structural error: "@ + m@,
        e matches ValidationError::ScriptExecutionFailed(m) ==> e.chars() == "Script execution failed: "@ + m@,
{
}

} // verus!
