//! The CoAP requests that commands ask to be sent, as plain values.

use vstd::prelude::*;

verus! {

/// The request method.
#[derive(Clone, Copy, PartialEq, Eq, Structural, Debug)]
pub enum Method {
    Get,
    Post,
    Put,
    Patch,
}

/// A CoAP request a command wants sent to the device.
pub struct RequestPlan {
    pub method: Method,
    /// The resource path, such as `/jelly/board`.
    pub path: String,
    /// The `Uri-Query` option, if any.
    pub query: Option<String>,
    /// Whether the payload is CBOR (content format 60).
    pub cbor: bool,
    pub payload: Vec<u8>,
}

/// A request as a value.
pub struct RequestView {
    pub method: Method,
    pub path: Seq<char>,
    pub query: Option<Seq<char>>,
    pub cbor: bool,
    pub payload: Seq<u8>,
}

impl View for RequestPlan {
    type V = RequestView;

    open spec fn view(&self) -> RequestView {
        RequestView {
            method: self.method,
            path: self.path@,
            query: match self.query {
                Some(q) => Some(q@),
                None => None,
            },
            cbor: self.cbor,
            payload: self.payload@,
        }
    }
}

impl RequestPlan {
    /// A GET request without payload for `path`, as a value.
    pub open spec fn get_view(path: Seq<char>) -> RequestView {
        RequestView { method: Method::Get, path, query: None, cbor: false, payload: Seq::empty() }
    }

    /// A GET request without payload for `path`.
    pub fn get(path: &str) -> (r: Self)
        ensures
            r@ == (RequestView { method: Method::Get, path: path@, query: None, cbor: false, payload: Seq::empty() }),
    {
        let r = Self { method: Method::Get, path: path.to_owned(), query: None, cbor: false, payload: Vec::new() };
        assert(r@.payload =~= Seq::<u8>::empty());
        r
    }
}

} // verus!
