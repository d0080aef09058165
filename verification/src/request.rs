use vstd::prelude::*;

use crate::header::Header;
use crate::method::Method;

verus! {

/// What is asked of the server: where, how, with which headers and with what
/// body.  An empty body means that none is sent.
#[derive(Debug, Clone, PartialEq, Eq)]
pub struct Request<'a> {
    /// The address of what is fetched
    pub url: &'a str,
    /// The HTTP method
    pub method: Method,
    /// The headers, in the order in which they were added
    pub headers: Vec<Header<'a>>,
    /// The bytes sent as the request's body
    pub body: Vec<u8>,
}

impl<'a> Request<'a> {
    /// Whether the request carries a body, which is when `body` is not empty.
    pub open spec fn carries_body(self) -> bool {
        self.body@.len() > 0
    }

    /// Whether the request carries a body.
    pub fn has_body(&self) -> (yes: bool)
        ensures
            yes == self.carries_body(),
    {
        self.body.len() > 0
    }
}

} // verus!
