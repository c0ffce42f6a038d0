//! Setting, clearing and finding mocks.

use crate::handlers::{HttpMockRequest, HttpMockResponse, HttpMockState, RequestModel, ResponseModel};
use crate::util::{contains_opt, eq_none_as_default, eq_none_as_empty, headers_or_empty, map_includes, opt_text_eq};
use vstd::prelude::*;

verus! {

/// A mock as stored: what it expects of a request and what it answers.
pub struct MockModel {
    pub request: RequestModel,
    pub response: ResponseModel,
}

/// A request that is made to set a new mock.
pub struct SetMockRequest {
    pub request: HttpMockRequest,
    pub response: HttpMockResponse,
}

impl View for SetMockRequest {
    type V = MockModel;

    open spec fn view(&self) -> MockModel {
        MockModel { request: self.request@, response: self.response@ }
    }
}

impl SetMockRequest {
    /// A builder in which neither the request nor the response is set yet.
    pub fn builder() -> (b: SetMockRequestBuilder)
        ensures
            b.request is None,
            b.response is None,
    {
        SetMockRequestBuilder { request: None, response: None }
    }
}

/// Builds a [`SetMockRequest`]; both parts must be set before `build`.
pub struct SetMockRequestBuilder {
    pub request: Option<HttpMockRequest>,
    pub response: Option<HttpMockResponse>,
}

impl SetMockRequestBuilder {
    /// Sets what the mock expects of a request.
    pub fn request(self, request: HttpMockRequest) -> (b: SetMockRequestBuilder)
        ensures
            b == (SetMockRequestBuilder { request: Some(request), ..self }),
    {
        SetMockRequestBuilder { request: Some(request), ..self }
    }

    /// Sets what the mock answers.
    pub fn response(self, response: HttpMockResponse) -> (b: SetMockRequestBuilder)
        ensures
            b == (SetMockRequestBuilder { response: Some(response), ..self }),
    {
        SetMockRequestBuilder { response: Some(response), ..self }
    }

    /// The mock with the request and the response that were set.
    pub fn build(self) -> (m: SetMockRequest)
        requires
            self.request is Some,
            self.response is Some,
        ensures
            m.request == self.request.unwrap(),
            m.response == self.response.unwrap(),
    {
        SetMockRequest { request: self.request.unwrap(), response: self.response.unwrap() }
    }
}

/// A request meets a mock's expectations: the same path, the same method, at
/// least the headers the mock names with the values it gives (an absent map
/// counting as empty), and the same body (an absent body counting as empty).
pub open spec fn request_matches_spec(req: RequestModel, mock: RequestModel) -> bool {
    &&& mock.path == req.path
    &&& mock.method == req.method
    &&& map_includes(headers_or_empty(req.headers), headers_or_empty(mock.headers))
    &&& eq_none_as_empty(mock.body, req.body)
}

/// The response of the first mock in `mocks` that `req` matches, if any.
pub open spec fn find_spec(mocks: Seq<MockModel>, req: RequestModel) -> Option<ResponseModel>
    decreases mocks.len(),
{
    if mocks.len() == 0 {
        None
    } else {
        let earlier = find_spec(mocks.drop_last(), req);
        if earlier is Some {
            earlier
        } else if request_matches_spec(req, mocks.last().request) {
            Some(mocks.last().response)
        } else {
            None
        }
    }
}

/// Every request meets the expectations that it would place as a mock.
pub proof fn lemma_request_matches_itself(r: RequestModel)
    ensures
        request_matches_spec(r, r),
{
}

/// When two requests carry the same headers (an absent map counting as
/// empty), the first matches the second exactly when the second matches the
/// first.
pub proof fn lemma_match_symmetric_with_same_headers(a: RequestModel, b: RequestModel)
    requires
        headers_or_empty(a.headers) == headers_or_empty(b.headers),
    ensures
        request_matches_spec(a, b) == request_matches_spec(b, a),
{
}

/// A request that carries more headers than a matching request, and is
/// otherwise the same, matches too.
pub proof fn lemma_extra_request_headers_keep_match(req: RequestModel, more: RequestModel, mock: RequestModel)
    requires
        request_matches_spec(req, mock),
        more.path == req.path,
        more.method == req.method,
        more.body == req.body,
        map_includes(headers_or_empty(more.headers), headers_or_empty(req.headers)),
    ensures
        request_matches_spec(more, mock),
{
    let wanted = headers_or_empty(mock.headers);
    let have = headers_or_empty(req.headers);
    let bigger = headers_or_empty(more.headers);
    assert forall|k: Seq<char>| #[trigger] wanted.contains_key(k) implies bigger.contains_key(k)
        && bigger[k] == wanted[k] by {
        assert(have.contains_key(k));
    }
}

/// A request meets a mock only on the mock's exact path: both absent, or both
/// present with the same characters.
pub proof fn lemma_match_needs_same_path(req: RequestModel, mock: RequestModel)
    requires
        request_matches_spec(req, mock),
    ensures
        mock.path == req.path,
        mock.path is Some ==> req.path is Some && req.path.unwrap() == mock.path.unwrap(),
{
}

/// A request meets a mock only with the mock's exact method.
pub proof fn lemma_match_needs_same_method(req: RequestModel, mock: RequestModel)
    requires
        request_matches_spec(req, mock),
    ensures
        mock.method == req.method,
        mock.method is Some ==> req.method is Some && req.method.unwrap() == mock.method.unwrap(),
{
}

/// A request meets a mock only with the whole body that the mock expects;
/// an absent body stands for the empty one.
pub proof fn lemma_match_needs_same_body(req: RequestModel, mock: RequestModel)
    requires
        request_matches_spec(req, mock),
    ensures
        mock.body is Some && req.body is Some ==> req.body.unwrap() == mock.body.unwrap(),
        mock.body is Some && req.body is None ==> mock.body.unwrap().len() == 0,
        mock.body is None && req.body is Some ==> req.body.unwrap().len() == 0,
{
}

/// A request meets a mock only when it carries every header that the mock
/// names, each with the very value the mock gives.
pub proof fn lemma_match_needs_expected_headers(req: RequestModel, mock: RequestModel)
    requires
        request_matches_spec(req, mock),
    ensures
        mock.headers is Some ==> forall|k: Seq<char>|
            #[trigger] mock.headers.unwrap().contains_key(k) ==> req.headers is Some
                && req.headers.unwrap().contains_key(k) && req.headers.unwrap()[k]
                == mock.headers.unwrap()[k],
{
    if mock.headers is Some {
        assert forall|k: Seq<char>| #[trigger] mock.headers.unwrap().contains_key(k) implies req.headers is Some
            && req.headers.unwrap().contains_key(k) && req.headers.unwrap()[k]
            == mock.headers.unwrap()[k] by {
            assert(headers_or_empty(mock.headers).contains_key(k));
            if req.headers is None {
                assert(!headers_or_empty(req.headers).contains_key(k));
            }
        }
    }
}

/// A request that has the mock's path, method and body, and carries every
/// header the mock names with the same value, meets the mock.
pub proof fn lemma_match_when_all_expectations_met(req: RequestModel, mock: RequestModel)
    requires
        mock.path == req.path,
        mock.method == req.method,
        mock.body == req.body,
        mock.headers is Some ==> req.headers is Some,
        mock.headers is Some ==> forall|k: Seq<char>|
            #[trigger] mock.headers.unwrap().contains_key(k) ==> req.headers.unwrap().contains_key(k)
                && req.headers.unwrap()[k] == mock.headers.unwrap()[k],
    ensures
        request_matches_spec(req, mock),
{
}

/// A response is found only from a stored mock whose path, method and body
/// the request has exactly, and whose expected headers the request carries
/// with the same values.
pub proof fn lemma_found_mock_meets_request(mocks: Seq<MockModel>, req: RequestModel)
    requires
        find_spec(mocks, req) is Some,
    ensures
        exists|i: int|
            0 <= i < mocks.len() && find_spec(mocks, req) == Some((#[trigger] mocks[i]).response)
                && mocks[i].request.path == req.path && mocks[i].request.method == req.method
                && (mocks[i].request.body is Some && req.body is Some ==> req.body.unwrap()
                == mocks[i].request.body.unwrap()) && (mocks[i].request.headers is Some ==> forall|k: Seq<char>|
                #[trigger] mocks[i].request.headers.unwrap().contains_key(k) ==> req.headers is Some
                    && req.headers.unwrap()[k] == mocks[i].request.headers.unwrap()[k]),
{
    lemma_find_first_match(mocks, req);
    let i = choose|i: int|
        0 <= i < mocks.len() && request_matches_spec(req, (#[trigger] mocks[i]).request)
            && find_spec(mocks, req) == Some(mocks[i].response) && forall|j: int|
            0 <= j < i ==> !request_matches_spec(req, (#[trigger] mocks[j]).request);
    lemma_match_needs_same_path(req, mocks[i].request);
    lemma_match_needs_same_method(req, mocks[i].request);
    lemma_match_needs_same_body(req, mocks[i].request);
    lemma_match_needs_expected_headers(req, mocks[i].request);
}

/// With no mocks held, no request finds a response.
pub proof fn lemma_find_in_empty(req: RequestModel)
    ensures
        find_spec(Seq::<MockModel>::empty(), req) is None,
{
}

/// Adding a mock changes no answer that an earlier mock gives; a request that
/// no earlier mock matches gets the new mock's response when it matches it,
/// and nothing otherwise.
pub proof fn lemma_find_after_add(mocks: Seq<MockModel>, m: MockModel, req: RequestModel)
    ensures
        find_spec(mocks.push(m), req) == (if find_spec(mocks, req) is Some {
            find_spec(mocks, req)
        } else if request_matches_spec(req, m.request) {
            Some(m.response)
        } else {
            None
        }),
{
    assert(mocks.push(m).drop_last() =~= mocks);
}

/// The response found is that of the first mock that the request matches,
/// and nothing is found exactly when no mock matches.
pub proof fn lemma_find_first_match(mocks: Seq<MockModel>, req: RequestModel)
    ensures
        find_spec(mocks, req) is None <==> forall|i: int|
            0 <= i < mocks.len() ==> !request_matches_spec(req, (#[trigger] mocks[i]).request),
        find_spec(mocks, req) is Some ==> exists|i: int|
            0 <= i < mocks.len() && request_matches_spec(req, (#[trigger] mocks[i]).request)
                && find_spec(mocks, req) == Some(mocks[i].response) && forall|j: int|
                0 <= j < i ==> !request_matches_spec(req, (#[trigger] mocks[j]).request),
    decreases mocks.len(),
{
    if mocks.len() > 0 {
        let prev = mocks.drop_last();
        lemma_find_first_match(prev, req);
        let n = mocks.len() - 1;
        assert(forall|i: int| 0 <= i < n ==> #[trigger] mocks[i] == prev[i]);
        if find_spec(prev, req) is Some {
            let i = choose|i: int|
                0 <= i < prev.len() && request_matches_spec(req, (#[trigger] prev[i]).request)
                    && find_spec(prev, req) == Some(prev[i].response) && forall|j: int|
                    0 <= j < i ==> !request_matches_spec(req, (#[trigger] prev[j]).request);
            assert(mocks[i] == prev[i]);
            assert forall|j: int| 0 <= j < i implies !request_matches_spec(req, (#[trigger] mocks[j]).request) by {
                assert(mocks[j] == prev[j]);
            }
        } else if request_matches_spec(req, mocks[n].request) {
            assert forall|j: int| 0 <= j < n implies !request_matches_spec(req, (#[trigger] mocks[j]).request) by {
                assert(mocks[j] == prev[j]);
            }
        } else {
            assert forall|i: int| 0 <= i < mocks.len() implies !request_matches_spec(req, (#[trigger] mocks[i]).request) by {
                if i < n {
                    assert(mocks[i] == prev[i]);
                }
            }
        }
    }
}

/// Once some prefix of `mocks` has a match, the first match of the whole list
/// is that one.
proof fn lemma_find_prefix(mocks: Seq<MockModel>, req: RequestModel, k: int)
    requires
        0 <= k <= mocks.len(),
        find_spec(mocks.take(k), req) is Some,
    ensures
        find_spec(mocks, req) == find_spec(mocks.take(k), req),
    decreases mocks.len(),
{
    if k == mocks.len() {
        assert(mocks.take(k) =~= mocks);
    } else {
        assert(mocks.drop_last().take(k) =~= mocks.take(k));
        lemma_find_prefix(mocks.drop_last(), req, k);
    }
}

/// Adds a new mock to the internal state.
pub fn add_new_mock(state: &mut HttpMockState, req: SetMockRequest) -> (r: Result<(), &'static str>)
    ensures
        r is Ok,
        final(state)@ == old(state)@.push(req@),
{
    state.push(req);
    Ok(())
}

/// Clears all mocks from the internal state.
pub fn clear_mocks(state: &mut HttpMockState, _req: SetMockRequest) -> (r: Result<(), &'static str>)
    ensures
        r is Ok,
        final(state)@ == Seq::<MockModel>::empty(),
{
    state.clear();
    Ok(())
}

/// The view of an optional response.
pub open spec fn opt_response(r: Option<HttpMockResponse>) -> Option<ResponseModel> {
    match r {
        Some(x) => Some(x@),
        None => None,
    }
}

/// Finds a mock that matches the current request and serves a response according to the mock
/// specification. If no mock is found, an empty result is returned.
pub fn find_mock(state: &HttpMockState, req: HttpMockRequest) -> (r: Result<Option<HttpMockResponse>, &'static str>)
    ensures
        r matches Ok(found) && opt_response(found) == find_spec(state@, req@),
{
    let n = state.len();
    let mut i: usize = 0;
    while i < n
        invariant
            n == state@.len(),
            i <= n,
            find_spec(state@.take(i as int), req@) is None,
        decreases n - i,
    {
        let m = state.mock(i);
        proof {
            assert(state@.take(i + 1).drop_last() =~= state@.take(i as int));
        }
        if request_matches(&req, &m.request) {
            proof {
                lemma_find_prefix(state@, req@, i + 1);
            }
            return Ok(Some(m.response.clone()));
        }
        i = i + 1;
    }
    proof {
        assert(state@.take(n as int) =~= state@);
    }
    Ok(None)
}

/// Checks if a request matches a mock.
pub fn request_matches(req: &HttpMockRequest, mock: &HttpMockRequest) -> (r: bool)
    ensures
        r == request_matches_spec(req@, mock@),
{
    if !opt_text_eq(&mock.path, &req.path) {
        return false;
    }
    if !opt_text_eq(&mock.method, &req.method) {
        return false;
    }
    if !contains_opt(&req.headers, &mock.headers) {
        return false;
    }
    if !eq_none_as_default(&mock.body, &req.body) {
        return false;
    }
    true
}

} // verus!
