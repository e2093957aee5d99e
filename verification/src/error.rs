use vstd::prelude::*;

verus! {

/// The three ways a call can fail: the network request could not be
/// completed, the reply was not a JSON object, or the extraction path
/// through the reply yielded no match.
#[derive(Clone, Copy, Debug, PartialEq, Eq, Structural)]
pub enum OpenRouterError {
    TransportError,
    SerializationError,
    NoResponseError,
}

impl OpenRouterError {
    /// A short description of the failure, for callers that report it.
    pub fn message(&self) -> (r: &'static str)
        ensures
            (match *self {
                OpenRouterError::TransportError => r@ == "the network request could not be completed"@,
                OpenRouterError::SerializationError => r@
                    == "the reply could not be parsed as a JSON object"@,
                OpenRouterError::NoResponseError => r@
                    == "expected at least one result for the call"@,
            }),
    {
        match self {
            OpenRouterError::TransportError => "the network request could not be completed",
            OpenRouterError::SerializationError => "the reply could not be parsed as a JSON object",
            OpenRouterError::NoResponseError => "expected at least one result for the call",
        }
    }
}

} // verus!
