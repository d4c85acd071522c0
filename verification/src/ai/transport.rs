//! The requests that go over the network, and which replies are errors.

use vstd::prelude::*;
use vstd::string::StringExecFns;
use crate::ai::error::{AiError, AiErrorModel};
use crate::ai::message::{Message, ToolSpec};
use crate::ai::protocol::{Protocol, RequestModel, SamplingParams};
use crate::ai::provider::{copy_headers, Endpoint, EndpointModel};
use crate::json::JsonModel;
use crate::text;

verus! {

/// `s` without the slashes at its end.
pub open spec fn without_last_slashes(s: Seq<char>) -> Seq<char>
    decreases s.len(),
{
    if s.len() > 0 && s.last() == '/' {
        without_last_slashes(s.drop_last())
    } else {
        s
    }
}

/// `s` without the slashes at its beginning.
pub open spec fn without_first_slashes(s: Seq<char>) -> Seq<char>
    decreases s.len(),
{
    if s.len() > 0 && s[0] == '/' {
        without_first_slashes(s.drop_first())
    } else {
        s
    }
}

/// An address and a path below it.
pub open spec fn joined_url(base_url: Seq<char>, path: Seq<char>) -> Seq<char> {
    without_last_slashes(base_url) + "/"@ + without_first_slashes(path)
}

/// Joins an address and a path with one slash between them, whatever slashes the
/// address ends with and the path begins with.
pub fn join_url(base_url: &str, path: &str) -> (r: String)
    ensures
        r@ == joined_url(base_url@, path@),
{
    let base = text::chars_of(base_url);
    let mut end: usize = base.len();
    assert(base@.take(end as int) =~= base@);
    while end > 0 && base[end - 1] == '/'
        invariant
            end <= base.len(),
            without_last_slashes(base@) == without_last_slashes(base@.take(end as int)),
        decreases end,
    {
        assert(base@.take(end as int).drop_last() =~= base@.take(end - 1));
        end = end - 1;
    }
    let below = text::chars_of(path);
    let mut start: usize = 0;
    assert(below@.skip(0) =~= below@);
    while start < below.len() && below[start] == '/'
        invariant
            start <= below.len(),
            without_first_slashes(below@) == without_first_slashes(below@.skip(start as int)),
        decreases below.len() - start,
    {
        assert(below@.skip(start as int).drop_first() =~= below@.skip(start + 1));
        start = start + 1;
    }
    let kept = text::slice(&base, 0, end);
    assert(kept@ =~= base@.take(end as int));
    let rest = text::slice(&below, start, below.len());
    assert(rest@ =~= below@.skip(start as int));
    let mut r = text::string_of(&kept);
    r.append("/");
    r.append(text::string_of(&rest).as_str());
    r
}

/// There is one slash where an address and a path meet: what stands before it
/// does not end with a slash, and what stands behind it does not begin with one.
pub proof fn lemma_one_slash(base_url: Seq<char>, path: Seq<char>)
    ensures
        ({
            let before = without_last_slashes(base_url);
            let behind = without_first_slashes(path);
            &&& joined_url(base_url, path) == before + "/"@ + behind
            &&& before.len() == 0 || before.last() != '/'
            &&& behind.len() == 0 || behind[0] != '/'
        }),
{
    lemma_no_last_slash(base_url);
    lemma_no_first_slash(path);
}

proof fn lemma_no_last_slash(s: Seq<char>)
    ensures
        ({
            let kept = without_last_slashes(s);
            kept.len() == 0 || kept.last() != '/'
        }),
    decreases s.len(),
{
    if s.len() > 0 && s.last() == '/' {
        lemma_no_last_slash(s.drop_last());
    }
}

proof fn lemma_no_first_slash(s: Seq<char>)
    ensures
        ({
            let kept = without_first_slashes(s);
            kept.len() == 0 || kept[0] != '/'
        }),
    decreases s.len(),
{
    if s.len() > 0 && s[0] == '/' {
        lemma_no_first_slash(s.drop_first());
    }
}

/// Slashes where an address and a path meet do not matter.
pub proof fn lemma_slashes_do_not_matter(base_url: Seq<char>, path: Seq<char>)
    ensures
        joined_url(base_url + "/"@, path) == joined_url(base_url, path),
        joined_url(base_url, "/"@ + path) == joined_url(base_url, path),
{
    reveal_strlit("/");
    assert((base_url + "/"@).drop_last() =~= base_url);
    assert(("/"@ + path).drop_first() =~= path);
}

/// A request that goes over the network.
#[derive(Debug)]
pub struct HttpRequest {
    pub url: String,
    pub headers: Vec<(String, String)>,
    pub body: serde_json::Value,
}

/// A request that goes over the network.
pub struct HttpRequestModel {
    pub url: Seq<char>,
    pub headers: Seq<(Seq<char>, Seq<char>)>,
    pub body: JsonModel,
}

impl DeepView for HttpRequest {
    type V = HttpRequestModel;

    open spec fn deep_view(&self) -> HttpRequestModel {
        HttpRequestModel {
            url: self.url@,
            headers: self.headers.deep_view(),
            body: crate::json::value_contents(self.body),
        }
    }
}

/// The request that a protocol makes to an address. The headers of the protocol
/// come before those of the address.
pub open spec fn request_to<Q: Protocol>(
    endpoint: EndpointModel,
    protocol: Q,
    request: RequestModel,
) -> Result<HttpRequestModel, AiErrorModel> {
    match protocol.body(request) {
        Ok(body) => Ok(
            HttpRequestModel {
                url: joined_url(endpoint.base_url, protocol.path()),
                headers: protocol.headers() + endpoint.headers,
                body,
            },
        ),
        Err(e) => Err(e),
    }
}

/// What came of making a request.
pub open spec fn made_model(r: Result<HttpRequest, AiError>) -> Result<HttpRequestModel, AiErrorModel> {
    match r {
        Ok(request) => Ok(request.deep_view()),
        Err(e) => Err(e.deep_view()),
    }
}

/// The request that a protocol makes to an address.
pub fn build_request<Q: Protocol>(
    endpoint: &Endpoint,
    protocol: &Q,
    model_id: &str,
    params: &SamplingParams,
    messages: &[Message],
    tools: &[ToolSpec],
) -> (r: Result<HttpRequest, AiError>)
    ensures
        made_model(r) == request_to(
            endpoint.deep_view(),
            *protocol,
            RequestModel {
                model_id: model_id@,
                params: *params,
                messages: messages.deep_view(),
                tools: tools.deep_view(),
            },
        ),
{
    match protocol.build_body(model_id, params, messages, tools) {
        Ok(body) => {
            let url = join_url(endpoint.base_url.as_str(), protocol.endpoint_path());
            let mut headers = protocol.protocol_headers();
            let mut more = copy_headers(&endpoint.headers);
            let ghost first = headers.deep_view();
            let ghost second = more.deep_view();
            headers.append(&mut more);
            assert(headers.deep_view() =~= first + second);
            Ok(HttpRequest { url, headers, body })
        },
        Err(e) => Err(e),
    }
}

/// Whether a status means success.
pub fn is_success(status: u16) -> (r: bool)
    ensures
        r == (200 <= status <= 299),
{
    200 <= status && status <= 299
}

/// The error of a reply with a status, unless the status means success.
pub open spec fn error_of(status: u16, message: Seq<char>) -> Option<AiErrorModel> {
    if 200 <= status <= 299 {
        None
    } else {
        Some(AiErrorModel::Api { status, message })
    }
}

/// A status means success if and only if it begins with a two; the error of any other tells
/// the status and the whole message.
pub proof fn lemma_error_tells_the_reply(status: u16, message: Seq<char>)
    ensures
        error_of(status, message) is None <==> status / 100 == 2,
        error_of(status, message) matches Some(e) ==> e == (AiErrorModel::Api { status, message }) && e.text()
            == "API error ("@ + text::decimal(status as nat) + "): "@ + message,
{
}

/// The error of a reply whose status means no success.
pub fn reply_error(status: u16, message: String) -> (r: Option<AiError>)
    ensures
        r.deep_view() == if 200 <= status <= 299 {
            None
        } else {
            Some(AiErrorModel::Api { status, message: message@ })
        },
        r.deep_view() == error_of(status, message@),
{
    if is_success(status) {
        None
    } else {
        Some(AiError::Api { status, message })
    }
}

/// An address and a path are joined as they are: what stands before the slashes and behind
/// them is kept character for character.
pub proof fn lemma_url_is_joined(base_url: Seq<char>, path: Seq<char>)
    requires
        base_url.len() == 0 || base_url.last() != '/',
        path.len() == 0 || path[0] != '/',
    ensures
        joined_url(base_url, path) == base_url + "/"@ + path,
        joined_url(base_url, "/"@ + path) == base_url + "/"@ + path,
        joined_url(base_url + "/"@, path) == base_url + "/"@ + path,
        joined_url(base_url + "/"@, "/"@ + path) == base_url + "/"@ + path,
{
    lemma_slashes_do_not_matter(base_url, path);
    lemma_slashes_do_not_matter(base_url, "/"@ + path);
}

/// A request goes where the provider is, by the path of the protocol, with the headers of
/// both and with the body that the protocol makes; a body that cannot be made is the only
/// reason for none.
pub proof fn lemma_request_is_made<Q: Protocol>(endpoint: EndpointModel, protocol: Q, request: RequestModel)
    ensures
        ({
            let r = request_to(endpoint, protocol, request);
            &&& r is Ok <==> protocol.body(request) is Ok
            &&& r is Err ==> r->Err_0 == protocol.body(request)->Err_0
            &&& r is Ok ==> {
                &&& r->Ok_0.body == protocol.body(request)->Ok_0
                &&& r->Ok_0.url == joined_url(endpoint.base_url, protocol.path())
                &&& protocol.headers().is_prefix_of(r->Ok_0.headers)
                &&& endpoint.headers.is_suffix_of(r->Ok_0.headers)
                &&& r->Ok_0.headers.len() == protocol.headers().len() + endpoint.headers.len()
            }
        }),
{
    let all = protocol.headers() + endpoint.headers;
    assert(protocol.headers() =~= all.subrange(0, protocol.headers().len() as int));
    assert(endpoint.headers =~= all.subrange(all.len() - endpoint.headers.len(), all.len() as int));
}

/// A request that was made stands for itself, and so does the error of one that was not.
pub proof fn lemma_what_was_made(request: HttpRequest, e: AiError)
    ensures
        made_model(Ok(request)) == Ok::<HttpRequestModel, AiErrorModel>(request.deep_view()),
        made_model(Err(e)) == Err::<HttpRequestModel, AiErrorModel>(e.deep_view()),
        request.deep_view().url == request.url@,
        request.deep_view().headers == request.headers.deep_view(),
{
}

} // verus!
