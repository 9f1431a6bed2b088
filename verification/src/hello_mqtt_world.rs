//! A service that answers every packet with a greeting.
use vstd::prelude::*;

verus! {

/// The greeting service.
#[derive(Clone, Copy, Debug)]
pub struct HelloWorld;

/// The message of the greeting.
pub open spec fn spec_hello_message() -> Seq<char> {
    seq!['H', 'e', 'l', 'l', 'o']
}

impl HelloWorld {
    /// The message that the service answers with.
    pub fn message(&self) -> (r: String)
        ensures
            r@ == spec_hello_message(),
    {
        let r = String::from_str("Hello");
        proof {
            reveal_strlit("Hello");
        }
        assert(r@ =~= spec_hello_message());
        r
    }
}

} // verus!
