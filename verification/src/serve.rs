//! What a service of the first server answers.
use vstd::prelude::*;

verus! {

/// A text answer.
#[derive(Clone)]
pub struct Response {
    pub message: String,
}

} // verus!
