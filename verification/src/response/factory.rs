//! The trait a response struct implements to consume its fields and hand
//! back a complete response.
use vstd::prelude::*;

verus! {

/// Consume the collected response data and return a valid HTTP response,
/// or say what was missing.
pub trait ResponseFactory {
    type ResponseContent;

    type ResponseError;

    fn build(self) -> Result<Self::ResponseContent, Self::ResponseError>;
}

} // verus!
