use vstd::prelude::*;
use vstd::string::*;

verus! {

/// Why an operation of the engine did not produce its normal result.
#[derive(Clone, Copy, Debug, PartialEq, Eq, Structural)]
pub enum EngineError {
    /// A link with the requested slug already exists.
    Conflict,
    /// No link carries the requested slug.
    NotFound,
    /// The creation request cannot be accepted as written.
    ValidationError,
    /// The store could not take the write.
    StorageError,
    /// No free slug was found within the allowed number of draws.
    ExhaustedGeneration,
}

impl EngineError {
    /// The HTTP status code under which the error is reported: a slug that
    /// is taken and a request that cannot be accepted are the caller's to
    /// mend, an unknown slug is not found, the others are the server's fault.
    pub open spec fn spec_status_code(self) -> u16 {
        match self {
            EngineError::Conflict => 422,
            EngineError::ValidationError => 422,
            EngineError::NotFound => 404,
            EngineError::StorageError => 500,
            EngineError::ExhaustedGeneration => 500,
        }
    }

    /// The text under which the error is shown to a caller.
    pub open spec fn spec_message(self) -> Seq<char> {
        match self {
            EngineError::Conflict => "a link with this slug already exists"@,
            EngineError::NotFound => "Link not found"@,
            EngineError::ValidationError => "the request names no target or an expiry out of range"@,
            EngineError::StorageError => "the store could not record the change"@,
            EngineError::ExhaustedGeneration => "no free slug could be generated"@,
        }
    }

    /// A human-readable message for the error.
    pub fn message(self) -> (text: String)
        ensures
            text@ == self.spec_message(),
    {
        match self {
            EngineError::Conflict => String::from_str("a link with this slug already exists"),
            EngineError::NotFound => String::from_str("Link not found"),
            EngineError::ValidationError => String::from_str(
                "the request names no target or an expiry out of range",
            ),
            EngineError::StorageError => String::from_str("the store could not record the change"),
            EngineError::ExhaustedGeneration => String::from_str("no free slug could be generated"),
        }
    }

    #[verifier::when_used_as_spec(spec_status_code)]
    pub fn status_code(self) -> (code: u16)
        ensures
            code == self.spec_status_code(),
    {
        match self {
            EngineError::Conflict => 422,
            EngineError::ValidationError => 422,
            EngineError::NotFound => 404,
            EngineError::StorageError => 500,
            EngineError::ExhaustedGeneration => 500,
        }
    }
}

} // verus!
