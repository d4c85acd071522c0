//! Who is spoken to: an address and the headers that open it.

use vstd::prelude::*;
use vstd::string::StringExecFns;
use crate::ai::protocol::ProtocolKind;

verus! {

/// An address with the headers of its requests.
#[derive(Debug)]
pub struct Endpoint {
    pub base_url: String,
    pub headers: Vec<(String, String)>,
}

/// An address with the headers of its requests.
pub struct EndpointModel {
    pub base_url: Seq<char>,
    pub headers: Seq<(Seq<char>, Seq<char>)>,
}

impl DeepView for Endpoint {
    type V = EndpointModel;

    open spec fn deep_view(&self) -> EndpointModel {
        EndpointModel { base_url: self.base_url@, headers: self.headers.deep_view() }
    }
}

/// A copy of headers.
pub fn copy_headers(headers: &Vec<(String, String)>) -> (r: Vec<(String, String)>)
    ensures
        r.deep_view() == headers.deep_view(),
{
    let mut r: Vec<(String, String)> = Vec::new();
    let mut i: usize = 0;
    while i < headers.len()
        invariant
            i <= headers.len(),
            r@.len() == i,
            forall|j: int| 0 <= j < i ==> (#[trigger] r@[j]).deep_view() == headers@[j].deep_view(),
        decreases headers.len() - i,
    {
        r.push((headers[i].0.clone(), headers[i].1.clone()));
        i = i + 1;
    }
    assert(r.deep_view() =~= headers.deep_view());
    r
}

impl Clone for Endpoint {
    fn clone(&self) -> (r: Self)
        ensures
            r.deep_view() == self.deep_view(),
    {
        Endpoint { base_url: self.base_url.clone(), headers: copy_headers(&self.headers) }
    }
}

/// How the key is shown.
#[derive(Debug)]
pub enum AuthStyle {
    /// `Authorization: Bearer` and the key.
    Bearer,
    /// A header of its own that holds the key.
    ApiKeyHeader(String),
}

impl Clone for AuthStyle {
    fn clone(&self) -> (r: Self)
        ensures
            forall|key: Seq<char>| #[trigger] auth_header(r, key) == auth_header(*self, key),
    {
        match self {
            AuthStyle::Bearer => AuthStyle::Bearer,
            AuthStyle::ApiKeyHeader(name) => AuthStyle::ApiKeyHeader(name.clone()),
        }
    }
}

/// The header that shows a key.
pub open spec fn auth_header(auth: AuthStyle, key: Seq<char>) -> (Seq<char>, Seq<char>) {
    match auth {
        AuthStyle::Bearer => ("Authorization"@, "Bearer "@ + key),
        AuthStyle::ApiKeyHeader(name) => (name@, key),
    }
}

/// Who is spoken to. In what way is the protocol's business.
pub trait Provider {
    /// The provider's name.
    open spec fn provider_name(&self) -> Seq<char> {
        arbitrary()
    }

    /// Where requests go.
    open spec fn address(&self) -> EndpointModel {
        arbitrary()
    }

    /// The protocols that the provider understands.
    open spec fn protocols(&self) -> Seq<ProtocolKind> {
        arbitrary()
    }

    /// The provider's name.
    fn name(&self) -> (r: &str)
        ensures
            r@ == self.provider_name(),
    ;

    /// Where requests go.
    fn endpoint(&self) -> (r: Endpoint)
        ensures
            r.deep_view() == self.address(),
    ;

    /// The protocols that the provider understands.
    fn supported_protocols(&self) -> (r: &[ProtocolKind])
        ensures
            r@ == self.protocols(),
    ;
}

/// A provider that is described by its data alone.
#[derive(Debug)]
pub struct GenericProvider {
    name: String,
    base_url: String,
    api_key: String,
    auth: AuthStyle,
    protocols: Vec<ProtocolKind>,
    extra_headers: Vec<(String, String)>,
}

/// What describes a provider.
pub struct ProviderModel {
    pub name: Seq<char>,
    pub base_url: Seq<char>,
    pub api_key: Seq<char>,
    pub auth: AuthStyle,
    pub protocols: Seq<ProtocolKind>,
    pub extra_headers: Seq<(Seq<char>, Seq<char>)>,
}

impl View for GenericProvider {
    type V = ProviderModel;

    closed spec fn view(&self) -> ProviderModel {
        ProviderModel {
            name: self.name@,
            base_url: self.base_url@,
            api_key: self.api_key@,
            auth: self.auth,
            protocols: self.protocols@,
            extra_headers: self.extra_headers.deep_view(),
        }
    }
}

impl GenericProvider {
    /// A provider.
    pub fn new(
        name: &str,
        base_url: &str,
        api_key: &str,
        auth: AuthStyle,
        protocols: Vec<ProtocolKind>,
    ) -> (r: Self)
        ensures
            r@ == (ProviderModel {
                name: name@,
                base_url: base_url@,
                api_key: api_key@,
                auth,
                protocols: protocols@,
                extra_headers: Seq::empty(),
            }),
    {
        let r = GenericProvider {
            name: name.to_owned(),
            base_url: base_url.to_owned(),
            api_key: api_key.to_owned(),
            auth,
            protocols,
            extra_headers: Vec::new(),
        };
        assert(r@.extra_headers =~= Seq::<(Seq<char>, Seq<char>)>::empty());
        r
    }

    /// The provider with a further header.
    pub fn with_header(self, key: &str, value: &str) -> (r: Self)
        ensures
            r@ == (ProviderModel { extra_headers: self@.extra_headers.push((key@, value@)), ..self@ }),
    {
        let mut headers = self.extra_headers;
        headers.push((key.to_owned(), value.to_owned()));
        assert(headers.deep_view() =~= self@.extra_headers.push((key@, value@)));
        GenericProvider {
            name: self.name,
            base_url: self.base_url,
            api_key: self.api_key,
            auth: self.auth,
            protocols: self.protocols,
            extra_headers: headers,
        }
    }
}

impl Provider for GenericProvider {
    open spec fn provider_name(&self) -> Seq<char> {
        self@.name
    }

    /// The key comes after the other headers.
    open spec fn address(&self) -> EndpointModel {
        EndpointModel {
            base_url: self@.base_url,
            headers: self@.extra_headers.push(auth_header(self@.auth, self@.api_key)),
        }
    }

    open spec fn protocols(&self) -> Seq<ProtocolKind> {
        self@.protocols
    }

    fn name(&self) -> (r: &str) {
        self.name.as_str()
    }

    fn endpoint(&self) -> (r: Endpoint) {
        let mut headers = copy_headers(&self.extra_headers);
        let header = match &self.auth {
            AuthStyle::Bearer => ("Authorization".to_owned(), "Bearer ".to_owned().concat(self.api_key.as_str())),
            AuthStyle::ApiKeyHeader(name) => (name.clone(), self.api_key.clone()),
        };
        headers.push(header);
        assert(headers.deep_view() =~= self.address().headers);
        Endpoint { base_url: self.base_url.clone(), headers }
    }

    fn supported_protocols(&self) -> (r: &[ProtocolKind]) {
        self.protocols.as_slice()
    }
}

/// The key is shown in full, as a bearer's or in the header that is named for it.
pub proof fn lemma_key_is_shown(auth: AuthStyle, key: Seq<char>)
    ensures
        auth is Bearer ==> auth_header(auth, key) == ("Authorization"@, "Bearer "@ + key),
        auth matches AuthStyle::ApiKeyHeader(name) ==> auth_header(auth, key) == (name@, key),
{
}

/// Requests go to the provider's address with all its headers, in their order, and with
/// the one that shows the key behind them.
pub proof fn lemma_address(p: GenericProvider)
    ensures
        ({
            let a = p.address();
            &&& a.base_url == p@.base_url
            &&& a.headers.len() == p@.extra_headers.len() + 1
            &&& p@.extra_headers.is_prefix_of(a.headers)
            &&& p@.auth is Bearer ==> a.headers.last() == ("Authorization"@, "Bearer "@ + p@.api_key)
            &&& p@.auth matches AuthStyle::ApiKeyHeader(name) ==> a.headers.last() == (name@, p@.api_key)
        }),
        p.provider_name() == p@.name,
        p.protocols() == p@.protocols,
{
    assert(p@.extra_headers =~= p.address().headers.subrange(0, p@.extra_headers.len() as int));
}

} // verus!
