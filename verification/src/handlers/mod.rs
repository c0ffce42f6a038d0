//! The data that the mock server stores and matches: requests, responses and
//! the list of mocks.

pub mod mocks;

use crate::handlers::mocks::{MockModel, SetMockRequest};
use crate::util::{opt_headers, opt_text, HeaderMap};
use vstd::prelude::*;

verus! {

/// What a request is, or what a mock expects of one: each part may be absent.
pub struct RequestModel {
    pub path: Option<Seq<char>>,
    pub method: Option<Seq<char>>,
    pub headers: Option<Map<Seq<char>, Seq<char>>>,
    pub body: Option<Seq<char>>,
}

/// What a mock answers with.
pub struct ResponseModel {
    pub status: u16,
    pub headers: Option<Map<Seq<char>, Seq<char>>>,
    pub body: Option<Seq<char>>,
}

/// An HTTP request as the server received it, or the expectations that a mock
/// places on one.
pub struct HttpMockRequest {
    pub path: Option<String>,
    pub method: Option<String>,
    pub headers: Option<HeaderMap>,
    pub body: Option<String>,
}

impl View for HttpMockRequest {
    type V = RequestModel;

    open spec fn view(&self) -> RequestModel {
        RequestModel {
            path: opt_text(self.path),
            method: opt_text(self.method),
            headers: opt_headers(self.headers),
            body: opt_text(self.body),
        }
    }
}

impl HttpMockRequest {
    /// A builder whose parts all start absent.
    pub fn builder() -> (b: HttpMockRequestBuilder)
        ensures
            b.path is None,
            b.method is None,
            b.headers is None,
            b.body is None,
    {
        HttpMockRequestBuilder { path: None, method: None, headers: None, body: None }
    }

    /// A copy of this request.
    pub fn duplicate(&self) -> (r: HttpMockRequest)
        ensures
            r@ == self@,
    {
        HttpMockRequest {
            path: copy_opt_text(&self.path),
            method: copy_opt_text(&self.method),
            headers: copy_opt_headers(&self.headers),
            body: copy_opt_text(&self.body),
        }
    }
}

/// Builds an [`HttpMockRequest`] part by part.
pub struct HttpMockRequestBuilder {
    pub path: Option<String>,
    pub method: Option<String>,
    pub headers: Option<HeaderMap>,
    pub body: Option<String>,
}

impl HttpMockRequestBuilder {
    /// Sets the path.
    pub fn path(self, path: Option<String>) -> (b: HttpMockRequestBuilder)
        ensures
            b == (HttpMockRequestBuilder { path, ..self }),
    {
        HttpMockRequestBuilder { path, ..self }
    }

    /// Sets the method.
    pub fn method(self, method: Option<String>) -> (b: HttpMockRequestBuilder)
        ensures
            b == (HttpMockRequestBuilder { method, ..self }),
    {
        HttpMockRequestBuilder { method, ..self }
    }

    /// Sets the headers.
    pub fn headers(self, headers: Option<HeaderMap>) -> (b: HttpMockRequestBuilder)
        ensures
            b == (HttpMockRequestBuilder { headers, ..self }),
    {
        HttpMockRequestBuilder { headers, ..self }
    }

    /// Sets the body.
    pub fn body(self, body: Option<String>) -> (b: HttpMockRequestBuilder)
        ensures
            b == (HttpMockRequestBuilder { body, ..self }),
    {
        HttpMockRequestBuilder { body, ..self }
    }

    /// The request with the parts set so far.
    pub fn build(self) -> (r: HttpMockRequest)
        ensures
            r == (HttpMockRequest {
                path: self.path,
                method: self.method,
                headers: self.headers,
                body: self.body,
            }),
    {
        HttpMockRequest { path: self.path, method: self.method, headers: self.headers, body: self.body }
    }
}

impl Clone for HttpMockRequest {
    fn clone(&self) -> (r: Self)
        ensures
            r@ == self@,
    {
        self.duplicate()
    }
}

impl Clone for HttpMockResponse {
    fn clone(&self) -> (r: Self)
        ensures
            r@ == self@,
    {
        self.duplicate()
    }
}

/// The response that a mock gives.
pub struct HttpMockResponse {
    pub status: u16,
    pub headers: Option<HeaderMap>,
    pub body: Option<String>,
}

impl View for HttpMockResponse {
    type V = ResponseModel;

    open spec fn view(&self) -> ResponseModel {
        ResponseModel { status: self.status, headers: opt_headers(self.headers), body: opt_text(self.body) }
    }
}

/// A copy of an optional text.
fn copy_opt_text(t: &Option<String>) -> (r: Option<String>)
    ensures
        opt_text(r) == opt_text(*t),
{
    match t {
        Some(s) => Some(s.clone()),
        None => None,
    }
}

/// A copy of an optional header map.
fn copy_opt_headers(h: &Option<HeaderMap>) -> (r: Option<HeaderMap>)
    ensures
        opt_headers(r) == opt_headers(*h),
{
    match h {
        Some(m) => Some(m.duplicate()),
        None => None,
    }
}

impl HttpMockResponse {
    /// A copy of this response.
    pub fn duplicate(&self) -> (r: HttpMockResponse)
        ensures
            r@ == self@,
    {
        HttpMockResponse {
            status: self.status,
            headers: copy_opt_headers(&self.headers),
            body: copy_opt_text(&self.body),
        }
    }
}

/// The mocks that the server holds, in the order in which they were set.
pub struct HttpMockState {
    mocks: Vec<SetMockRequest>,
}

impl View for HttpMockState {
    type V = Seq<MockModel>;

    closed spec fn view(&self) -> Seq<MockModel> {
        self.mocks@.map_values(|m: SetMockRequest| m@)
    }
}

impl HttpMockState {
    /// A state that holds no mocks.
    pub fn new() -> (s: HttpMockState)
        ensures
            s@ == Seq::<MockModel>::empty(),
    {
        let s = HttpMockState { mocks: Vec::new() };
        assert(s@ =~= Seq::<MockModel>::empty());
        s
    }

    /// The mock at position `i`.
    pub fn mock(&self, i: usize) -> (m: &SetMockRequest)
        requires
            i < self@.len(),
        ensures
            m@ == self@[i as int],
    {
        &self.mocks[i]
    }

    /// Appends a mock after those already held.
    pub(crate) fn push(&mut self, m: SetMockRequest)
        ensures
            final(self)@ == old(self)@.push(m@),
    {
        self.mocks.push(m);
        assert(self@ =~= old(self)@.push(m@));
    }

    /// Drops every mock held.
    pub(crate) fn clear(&mut self)
        ensures
            final(self)@ == Seq::<MockModel>::empty(),
    {
        self.mocks.clear();
        assert(self@ =~= Seq::<MockModel>::empty());
    }

    /// The number of mocks held.
    pub fn len(&self) -> (n: usize)
        ensures
            n == self@.len(),
    {
        self.mocks.len()
    }
}

} // verus!
