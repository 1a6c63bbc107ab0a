//! The runtime's error type.
use vstd::prelude::*;

verus! {

/// Errors raised by the runtime core; each carries a human-readable message.
#[derive(Debug, Clone)]
pub enum CoreError {
    /// Guest address-space bookkeeping failed (overlap, overflow, coverage).
    Memory(String),
    /// The execution backend could not perform an access or allocation.
    Backend(String),
    /// The application image is malformed.
    InvalidImage(String),
}

/// `Result` specialised to [`CoreError`].
pub type CoreResult<T> = Result<T, CoreError>;

impl CoreError {
    /// The message carried by the error, whatever its kind.
    pub open spec fn spec_message(&self) -> Seq<char> {
        match self {
            CoreError::Memory(m) => m@,
            CoreError::Backend(m) => m@,
            CoreError::InvalidImage(m) => m@,
        }
    }

    /// The message carried by the error.
    pub fn message(&self) -> (m: &String)
        ensures
            m@ == self.spec_message(),
    {
        match self {
            CoreError::Memory(m) => m,
            CoreError::Backend(m) => m,
            CoreError::InvalidImage(m) => m,
        }
    }
}

} // verus!
