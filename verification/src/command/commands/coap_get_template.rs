//! The smallest command: one GET to a single end-point, nothing shown
//! besides the usual summary of the response.

use vstd::prelude::*;

use super::super::request::RequestPlan;
use super::super::request::RequestView;
use super::super::request::Method;
use super::super::Command;

verus! {

/// GETs the resource saved when the command was parsed.
pub struct CoapGet(String);

impl CoapGet {
    /// The resource this handler GETs.
    pub closed spec fn location(&self) -> Seq<char> {
        self.0@
    }

    /// Saves the command's first end-point.
    pub fn parse(cmd: &Command, _args: &str) -> (r: Self)
        requires
            cmd@.required_endpoints.len() > 0,
        ensures
            r.location() == cmd@.required_endpoints[0],
    {
        Self(cmd.required_endpoints[0].clone())
    }

    /// The GET request for the saved resource.
    pub fn init(&mut self) -> (r: RequestPlan)
        ensures
            r@ == (RequestView { method: Method::Get, path: old(self).location(), query: None, cbor: false, payload: Seq::empty() }),
            final(self).location() == old(self).location(),
    {
        RequestPlan::get(self.0.as_str())
    }
}

} // verus!
