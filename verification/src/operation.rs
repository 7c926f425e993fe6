//! Protocol-independent business operations: the stable semantics the
//! gateway interprets, routes or settles on, and the opaque payloads it
//! carries through for providers.

use vstd::prelude::*;
use vstd::string::StringSliceAdditionalSpecFns;
use vstd::utf8::encode_utf8;

use crate::text::{text_error_of, validate_text};

pub mod json;

use crate::diagnostics::capture::JsonTree;
use self::json::{
    contains_type, json_as_array, json_as_object, json_as_str, json_as_u64, json_get, json_member, json_member_object,
    json_member_text, json_object_bytes, json_object_entries, json_object_from_bytes, json_object_from_slice,
    json_object_to_vec, tree_contains_type,
};

verus! {

/// A JSON object as `serde_json` holds it; the core carries it through
/// without reading it.
#[verifier::external_type_specification]
#[verifier::external_body]
#[verifier::reject_recursive_types(K)]
#[verifier::reject_recursive_types(V)]
pub struct ExJsonMap<K, V>(serde_json::Map<K, V>);

/// A JSON value as `serde_json` holds it.
#[verifier::external_type_specification]
#[verifier::external_body]
pub struct ExJsonValue(serde_json::Value);

/// `Clone::clone` of a JSON object. Nothing is stated of the copy, since
/// the core never reads it.
pub assume_specification[ <serde_json::Map<String, serde_json::Value> as Clone>::clone ](
    map: &serde_json::Map<String, serde_json::Value>,
) -> serde_json::Map<String, serde_json::Value>;

/// `serde_json::Map::new`: a new, empty JSON object.
#[verifier::external_body]
pub(crate) fn empty_json_object() -> (r: serde_json::Map<String, serde_json::Value>)
    ensures
        json_object_entries(r) == Seq::<(Seq<char>, JsonTree)>::empty(),
{
    serde_json::Map::new()
}

/// An operation could not be built from its parts.
#[derive(Debug, Clone, Copy, PartialEq, Eq)]
pub enum OperationError {
    /// A required field is missing or invalid.
    EmptyField { field: &'static str },
}

/// The stable operation categories the gateway supports.
#[derive(Debug, Clone, Copy, PartialEq, Eq, Structural, Hash, PartialOrd, Ord)]
#[non_exhaustive]
pub enum OperationKind {
    /// Text, multimodal and tool generation.
    Generate,
    /// Image generation.
    GenerateImage,
    /// Provider-native standalone search.
    Search,
    /// Token counting with the target model's own tokenizer.
    CountTokens,
    /// An account-authenticated HTTP operation a provider declared.
    ProviderHttp,
}

impl OperationKind {
    /// The stable wire and storage name.
    pub open spec fn spec_name(self) -> Seq<char> {
        match self {
            OperationKind::Generate => "generate"@,
            OperationKind::GenerateImage => "generate_image"@,
            OperationKind::Search => "search"@,
            OperationKind::CountTokens => "count_tokens"@,
            OperationKind::ProviderHttp => "provider_http"@,
        }
    }

    pub fn as_str(self) -> (r: &'static str)
        ensures
            r@ == self.spec_name(),
    {
        match self {
            OperationKind::Generate => "generate",
            OperationKind::GenerateImage => "generate_image",
            OperationKind::Search => "search",
            OperationKind::CountTokens => "count_tokens",
            OperationKind::ProviderHttp => "provider_http",
        }
    }
}

/// Distinct values of [`OperationKind`] have distinct stable names, so parsing a
/// value's name gives that value back.
pub proof fn lemma_operation_kind_names_distinct(x: OperationKind, y: OperationKind)
    ensures
        x.spec_name() == y.spec_name() ==> x == y,
{
    reveal_strlit("generate");
    reveal_strlit("generate_image");
    reveal_strlit("search");
    reveal_strlit("count_tokens");
    reveal_strlit("provider_http");
    match x {
        OperationKind::Generate => match y {
            OperationKind::Generate => {},
            OperationKind::GenerateImage => { assert("generate"@.len() != "generate_image"@.len()); },
            OperationKind::Search => { assert("generate"@.len() != "search"@.len()); },
            OperationKind::CountTokens => { assert("generate"@.len() != "count_tokens"@.len()); },
            OperationKind::ProviderHttp => { assert("generate"@.len() != "provider_http"@.len()); },
        },
        OperationKind::GenerateImage => match y {
            OperationKind::Generate => { assert("generate_image"@.len() != "generate"@.len()); },
            OperationKind::GenerateImage => {},
            OperationKind::Search => { assert("generate_image"@.len() != "search"@.len()); },
            OperationKind::CountTokens => { assert("generate_image"@.len() != "count_tokens"@.len()); },
            OperationKind::ProviderHttp => { assert("generate_image"@.len() != "provider_http"@.len()); },
        },
        OperationKind::Search => match y {
            OperationKind::Generate => { assert("search"@.len() != "generate"@.len()); },
            OperationKind::GenerateImage => { assert("search"@.len() != "generate_image"@.len()); },
            OperationKind::Search => {},
            OperationKind::CountTokens => { assert("search"@.len() != "count_tokens"@.len()); },
            OperationKind::ProviderHttp => { assert("search"@.len() != "provider_http"@.len()); },
        },
        OperationKind::CountTokens => match y {
            OperationKind::Generate => { assert("count_tokens"@.len() != "generate"@.len()); },
            OperationKind::GenerateImage => { assert("count_tokens"@.len() != "generate_image"@.len()); },
            OperationKind::Search => { assert("count_tokens"@.len() != "search"@.len()); },
            OperationKind::CountTokens => {},
            OperationKind::ProviderHttp => { assert("count_tokens"@.len() != "provider_http"@.len()); },
        },
        OperationKind::ProviderHttp => match y {
            OperationKind::Generate => { assert("provider_http"@.len() != "generate"@.len()); },
            OperationKind::GenerateImage => { assert("provider_http"@.len() != "generate_image"@.len()); },
            OperationKind::Search => { assert("provider_http"@.len() != "search"@.len()); },
            OperationKind::CountTokens => { assert("provider_http"@.len() != "count_tokens"@.len()); },
            OperationKind::ProviderHttp => {},
        },
    }
}

/// The provider HTTP methods the API may expose; `HEAD` and other methods are not implied.
#[derive(Debug, Clone, Copy, PartialEq, Eq, Structural, Hash, PartialOrd, Ord)]
pub enum ProviderHttpMethod {
    Get,
    Post,
}

impl ProviderHttpMethod {
    /// The stable wire and storage name.
    pub open spec fn spec_name(self) -> Seq<char> {
        match self {
            ProviderHttpMethod::Get => "GET"@,
            ProviderHttpMethod::Post => "POST"@,
        }
    }

    pub fn as_str(self) -> (r: &'static str)
        ensures
            r@ == self.spec_name(),
    {
        match self {
            ProviderHttpMethod::Get => "GET",
            ProviderHttpMethod::Post => "POST",
        }
    }
}

/// Distinct values of [`ProviderHttpMethod`] have distinct stable names, so parsing a
/// value's name gives that value back.
pub proof fn lemma_provider_http_method_names_distinct(x: ProviderHttpMethod, y: ProviderHttpMethod)
    ensures
        x.spec_name() == y.spec_name() ==> x == y,
{
    reveal_strlit("GET");
    reveal_strlit("POST");
    match x {
        ProviderHttpMethod::Get => match y {
            ProviderHttpMethod::Get => {},
            ProviderHttpMethod::Post => { assert("GET"@.len() != "POST"@.len()); },
        },
        ProviderHttpMethod::Post => match y {
            ProviderHttpMethod::Get => { assert("POST"@.len() != "GET"@.len()); },
            ProviderHttpMethod::Post => {},
        },
    }
}

/// A stable capability the router understands.
#[derive(Debug, Clone, Copy, PartialEq, Eq, Structural, PartialOrd, Ord, Hash)]
#[non_exhaustive]
pub enum Feature {
    /// Tool calling.
    Tools,
    /// Image input.
    Vision,
    /// Reasoning control or output.
    Reasoning,
    /// JSON Schema output.
    JsonSchema,
    /// Provider-native continuation.
    NativeContinuation,
}

/// The position of a feature in its declared order.
pub open spec fn feature_rank(f: Feature) -> int {
    match f {
        Feature::Tools => 0,
        Feature::Vision => 1,
        Feature::Reasoning => 2,
        Feature::JsonSchema => 3,
        Feature::NativeContinuation => 4,
    }
}

fn rank_of(f: Feature) -> (r: u8)
    ensures
        r == feature_rank(f),
{
    match f {
        Feature::Tools => 0,
        Feature::Vision => 1,
        Feature::Reasoning => 2,
        Feature::JsonSchema => 3,
        Feature::NativeContinuation => 4,
    }
}

/// The features in `s`, as a set.
pub open spec fn feature_set(s: Seq<Feature>) -> Set<Feature> {
    Set::new(|f: Feature| s.contains(f))
}

/// `s` lists features in strictly ascending declared order, each once.
pub open spec fn features_ascending(s: Seq<Feature>) -> bool {
    forall|i: int, j: int| 0 <= i < j < s.len() ==> feature_rank(#[trigger] s[i]) < feature_rank(#[trigger] s[j])
}

/// The capability constraints a request derives from its operation.
#[derive(Debug, Clone, PartialEq, Eq)]
pub struct CapabilityRequirements {
    operation: OperationKind,
    features: Vec<Feature>,
    requested_output_tokens: Option<u64>,
}

impl CapabilityRequirements {
    pub closed spec fn spec_operation(&self) -> OperationKind {
        self.operation
    }

    /// The required features, as a set.
    pub closed spec fn spec_features(&self) -> Set<Feature> {
        feature_set(self.features@)
    }

    pub closed spec fn spec_requested_output_tokens(&self) -> Option<u64> {
        self.requested_output_tokens
    }

    /// The features are kept in ascending declared order without repeats.
    pub closed spec fn well_ordered(&self) -> bool {
        features_ascending(self.features@)
    }

    /// Constraints that only require the operation.
    pub fn new(operation: OperationKind) -> (r: CapabilityRequirements)
        ensures
            r.spec_operation() == operation,
            r.spec_features() == Set::<Feature>::empty(),
            r.spec_requested_output_tokens() is None,
            r.well_ordered(),
    {
        let r = CapabilityRequirements { operation, features: Vec::new(), requested_output_tokens: None };
        assert(feature_set(r.features@) =~= Set::<Feature>::empty());
        r
    }

    /// Adds a stable feature requirement; requiring it again changes nothing.
    pub fn require(self, feature: Feature) -> (r: CapabilityRequirements)
        ensures
            r.spec_features() == self.spec_features().insert(feature),
            r.spec_operation() == self.spec_operation(),
            r.spec_requested_output_tokens() == self.spec_requested_output_tokens(),
            self.well_ordered() ==> r.well_ordered(),
    {
        let mut c = self;
        let k = rank_of(feature);
        let n = c.features.len();
        let mut i: usize = 0;
        while i < n && rank_of(c.features[i]) < k
            invariant
                i <= n,
                n == c.features.len(),
                forall|j: int| 0 <= j < i ==> feature_rank(#[trigger] c.features@[j]) < k,
            decreases n - i,
        {
            i = i + 1;
        }
        if i < n && c.features[i] == feature {
            assert(c.features@.contains(feature));
            assert(feature_set(c.features@) =~= feature_set(c.features@).insert(feature));
            return c;
        }
        let ghost old_features = c.features@;
        c.features.insert(i, feature);
        proof {
            let s = c.features@;
            assert(s =~= old_features.insert(i as int, feature));
            assert forall|f: Feature| s.contains(f) <==> (old_features.contains(f) || f == feature) by {
                if s.contains(f) {
                    let j = choose|j: int| 0 <= j < s.len() && s[j] == f;
                    if j < i {
                        assert(old_features[j] == f);
                    } else if j > i {
                        assert(old_features[j - 1] == f);
                    }
                }
                if old_features.contains(f) {
                    let j = choose|j: int| 0 <= j < old_features.len() && old_features[j] == f;
                    if j < i {
                        assert(s[j] == f);
                    } else {
                        assert(s[j + 1] == f);
                    }
                }
                if f == feature {
                    assert(s[i as int] == f);
                }
            }
            assert(feature_set(s) =~= feature_set(old_features).insert(feature));
            if features_ascending(old_features) {
                if i < n {
                    assert(feature_rank(old_features[i as int]) >= k);
                    assert(old_features[i as int] != feature);
                    assert(feature_rank(old_features[i as int]) > k);
                }
                assert forall|a: int, b: int| 0 <= a < b < s.len() implies feature_rank(#[trigger] s[a]) < feature_rank(#[trigger] s[b]) by {
                    if b < i {
                        assert(s[a] == old_features[a] && s[b] == old_features[b]);
                    } else if b == i {
                        assert(s[a] == old_features[a]);
                    } else if a < i {
                        assert(s[a] == old_features[a] && s[b] == old_features[b - 1]);
                        assert(feature_rank(old_features[b - 1]) >= feature_rank(old_features[i as int]));
                    } else if a == i {
                        assert(s[b] == old_features[b - 1]);
                        assert(feature_rank(old_features[b - 1]) >= feature_rank(old_features[i as int]));
                    } else {
                        assert(s[a] == old_features[a - 1] && s[b] == old_features[b - 1]);
                    }
                }
            }
        }
        c
    }

    /// Sets the requested maximum number of output tokens.
    pub fn with_requested_output_tokens(self, tokens: Option<u64>) -> (r: CapabilityRequirements)
        ensures
            r.spec_requested_output_tokens() == tokens,
            r.spec_operation() == self.spec_operation(),
            r.spec_features() == self.spec_features(),
            self.well_ordered() ==> r.well_ordered(),
    {
        let mut c = self;
        c.requested_output_tokens = tokens;
        c
    }

    pub fn operation(&self) -> (r: OperationKind)
        ensures
            r == self.spec_operation(),
    {
        self.operation
    }

    /// All required features, in ascending declared order for well-ordered
    /// constraints, as a `BTreeSet` iterates them.
    pub fn features(&self) -> (r: &[Feature])
        ensures
            feature_set(r@) == self.spec_features(),
            self.well_ordered() ==> features_ascending(r@),
    {
        self.features.as_slice()
    }

    pub fn requested_output_tokens(&self) -> (r: Option<u64>)
        ensures
            r == self.spec_requested_output_tokens(),
    {
        self.requested_output_tokens
    }
}


/// Connection-local state a provider generated and alone interprets. The
/// core only keeps it across retries and routing. It has no `Debug`.
#[derive(Clone, PartialEq)]
pub struct ProviderSessionState {
    provider: String,
    payload: serde_json::Map<String, serde_json::Value>,
}

impl ProviderSessionState {
    pub closed spec fn spec_provider(&self) -> Seq<char> {
        self.provider@
    }

    pub closed spec fn spec_payload(&self) -> serde_json::Map<String, serde_json::Value> {
        self.payload
    }

    /// Provider-private session state; the provider name must be 1 to 64
    /// bytes without control bytes.
    pub fn new(provider: String, payload: serde_json::Map<String, serde_json::Value>) -> (r: Result<ProviderSessionState, OperationError>)
        ensures
            r is Ok <==> text_error_of(provider@, 64, true, None) is None,
            r matches Ok(s) ==> s.spec_provider() == provider@ && s.spec_payload() == payload,
            r matches Err(e) ==> (e matches OperationError::EmptyField { field }
                && field@ == "provider_session_state provider"@),
    {
        match validate_text(provider.as_str(), 64, true, None) {
            Ok(()) => Ok(ProviderSessionState { provider, payload }),
            Err(_) => Err(OperationError::EmptyField { field: "provider_session_state provider" }),
        }
    }

    pub fn provider(&self) -> (r: &str)
        ensures
            r@ == self.spec_provider(),
    {
        self.provider.as_str()
    }

    pub fn payload(&self) -> (r: &serde_json::Map<String, serde_json::Value>)
        ensures
            *r == self.spec_payload(),
    {
        &self.payload
    }
}

/// An opaque JSON object a client protocol hands to a provider. It has no `Debug`.
#[derive(Clone, PartialEq)]
pub struct ProtocolPayload {
    protocol: String,
    body: serde_json::Map<String, serde_json::Value>,
    context: serde_json::Map<String, serde_json::Value>,
}

impl ProtocolPayload {
    pub closed spec fn spec_protocol(&self) -> Seq<char> {
        self.protocol@
    }

    pub closed spec fn spec_body(&self) -> serde_json::Map<String, serde_json::Value> {
        self.body
    }

    pub closed spec fn spec_context(&self) -> serde_json::Map<String, serde_json::Value> {
        self.context
    }

    /// An opaque body; the protocol name must be 1 to 64 bytes without
    /// control bytes. The context starts as an empty object.
    pub fn json_object(protocol: String, body: serde_json::Map<String, serde_json::Value>) -> (r: Result<ProtocolPayload, OperationError>)
        ensures
            r is Ok <==> text_error_of(protocol@, 64, true, None) is None,
            r matches Ok(p) ==> p.spec_protocol() == protocol@ && p.spec_body() == body
                && json_object_entries(p.spec_context()).len() == 0,
            r matches Err(e) ==> (e matches OperationError::EmptyField { field }
                && field@ == "protocol_payload protocol"@),
    {
        match validate_text(protocol.as_str(), 64, true, None) {
            Ok(()) => Ok(ProtocolPayload { protocol, body, context: empty_json_object() }),
            Err(_) => Err(OperationError::EmptyField { field: "protocol_payload protocol" }),
        }
    }

    pub fn protocol(&self) -> (r: &str)
        ensures
            r@ == self.spec_protocol(),
    {
        self.protocol.as_str()
    }

    pub fn body(&self) -> (r: &serde_json::Map<String, serde_json::Value>)
        ensures
            *r == self.spec_body(),
    {
        &self.body
    }

    /// Attaches connection context that never enters the wire body.
    pub fn with_context(self, context: serde_json::Map<String, serde_json::Value>) -> (r: ProtocolPayload)
        ensures
            r.spec_context() == context,
            r.spec_protocol() == self.spec_protocol(),
            r.spec_body() == self.spec_body(),
    {
        let mut p = self;
        p.context = context;
        p
    }

    pub fn context(&self) -> (r: &serde_json::Map<String, serde_json::Value>)
        ensures
            *r == self.spec_context(),
    {
        &self.context
    }
}

/// An opaque protocol JSON body kept as bytes, never parsed or re-encoded.
/// It has no `Debug`.
#[derive(Clone, PartialEq)]
pub struct RawJsonPayload {
    protocol: String,
    body: Vec<u8>,
    context: serde_json::Map<String, serde_json::Value>,
    translated: bool,
}

impl RawJsonPayload {
    pub closed spec fn spec_protocol(&self) -> Seq<char> {
        self.protocol@
    }

    /// The body already went through its one cross-protocol translation.
    pub closed spec fn spec_translated(&self) -> bool {
        self.translated
    }

    pub closed spec fn spec_body(&self) -> Seq<u8> {
        self.body@
    }

    pub closed spec fn spec_context(&self) -> serde_json::Map<String, serde_json::Value> {
        self.context
    }

    /// An opaque JSON body; the protocol name must be 1 to 64 bytes without control bytes.
    pub fn new(protocol: String, body: Vec<u8>) -> (r: Result<RawJsonPayload, OperationError>)
        ensures
            r is Ok <==> text_error_of(protocol@, 64, true, None) is None,
            r matches Ok(p) ==> p.spec_protocol() == protocol@ && p.spec_body() == body@ && !p.spec_translated()
                && json_object_entries(p.spec_context()).len() == 0,
            r matches Err(e) ==> (e matches OperationError::EmptyField { field }
                && field@ == "raw_json_payload protocol"@),
    {
        match validate_text(protocol.as_str(), 64, true, None) {
            Ok(()) => Ok(RawJsonPayload { protocol, body, context: empty_json_object(), translated: false }),
            Err(_) => Err(OperationError::EmptyField { field: "raw_json_payload protocol" }),
        }
    }

    pub fn protocol(&self) -> (r: &str)
        ensures
            r@ == self.spec_protocol(),
    {
        self.protocol.as_str()
    }

    pub fn body(&self) -> (r: &[u8])
        ensures
            r@ == self.spec_body(),
    {
        self.body.as_slice()
    }

    pub fn with_context(self, context: serde_json::Map<String, serde_json::Value>) -> (r: RawJsonPayload)
        ensures
            r.spec_context() == context,
            r.spec_protocol() == self.spec_protocol(),
            r.spec_body() == self.spec_body(),
            r.spec_translated() == self.spec_translated(),
    {
        let mut p = self;
        p.context = context;
        p
    }

    pub fn context(&self) -> (r: &serde_json::Map<String, serde_json::Value>)
        ensures
            *r == self.spec_context(),
    {
        &self.context
    }
}

/// An opaque HTTP body for provider HTTP endpoints; unlike
/// [`RawJsonPayload`] it need not be JSON. It has no `Debug`.
#[derive(Clone, PartialEq)]
pub struct RawHttpPayload {
    protocol: String,
    body: Vec<u8>,
    context: serde_json::Map<String, serde_json::Value>,
    translated: bool,
}

impl RawHttpPayload {
    pub closed spec fn spec_protocol(&self) -> Seq<char> {
        self.protocol@
    }

    /// The body already went through its one cross-protocol translation.
    pub closed spec fn spec_translated(&self) -> bool {
        self.translated
    }

    pub closed spec fn spec_body(&self) -> Seq<u8> {
        self.body@
    }

    pub closed spec fn spec_context(&self) -> serde_json::Map<String, serde_json::Value> {
        self.context
    }

    /// An opaque body; the protocol name must be 1 to 64 bytes without control bytes.
    pub fn new(protocol: String, body: Vec<u8>) -> (r: Result<RawHttpPayload, OperationError>)
        ensures
            r is Ok <==> text_error_of(protocol@, 64, true, None) is None,
            r matches Ok(p) ==> p.spec_protocol() == protocol@ && p.spec_body() == body@ && !p.spec_translated()
                && json_object_entries(p.spec_context()).len() == 0,
            r matches Err(e) ==> (e matches OperationError::EmptyField { field }
                && field@ == "raw_http_payload protocol"@),
    {
        match validate_text(protocol.as_str(), 64, true, None) {
            Ok(()) => Ok(RawHttpPayload { protocol, body, context: empty_json_object(), translated: false }),
            Err(_) => Err(OperationError::EmptyField { field: "raw_http_payload protocol" }),
        }
    }

    pub fn protocol(&self) -> (r: &str)
        ensures
            r@ == self.spec_protocol(),
    {
        self.protocol.as_str()
    }

    pub fn body(&self) -> (r: &[u8])
        ensures
            r@ == self.spec_body(),
    {
        self.body.as_slice()
    }

    pub fn with_context(self, context: serde_json::Map<String, serde_json::Value>) -> (r: RawHttpPayload)
        ensures
            r.spec_context() == context,
            r.spec_protocol() == self.spec_protocol(),
            r.spec_body() == self.spec_body(),
            r.spec_translated() == self.spec_translated(),
    {
        let mut p = self;
        p.context = context;
        p
    }

    pub fn context(&self) -> (r: &serde_json::Map<String, serde_json::Value>)
        ensures
            *r == self.spec_context(),
    {
        &self.context
    }
}

/// The stable endpoint meaning of an image API request.
#[derive(Debug, Clone, Copy, PartialEq, Eq, Structural, Hash)]
pub enum ImageRequestKind {
    /// Generate an image from text.
    Generation,
    /// Edit input images.
    Edit,
}

/// An image generation or edit request. It has no `Debug`.
#[derive(Clone, PartialEq)]
pub struct ImageRequest {
    kind: ImageRequestKind,
    payload: RawJsonPayload,
}

impl ImageRequest {
    pub closed spec fn spec_kind(&self) -> ImageRequestKind {
        self.kind
    }

    pub closed spec fn spec_payload(&self) -> RawJsonPayload {
        self.payload
    }

    pub fn from_raw_json(kind: ImageRequestKind, payload: RawJsonPayload) -> (r: ImageRequest)
        ensures
            r.spec_kind() == kind,
            r.spec_payload() == payload,
    {
        ImageRequest { kind, payload }
    }

    pub fn kind(&self) -> (r: ImageRequestKind)
        ensures
            r == self.spec_kind(),
    {
        self.kind
    }

    pub fn payload(&self) -> (r: &RawJsonPayload)
        ensures
            *r == self.spec_payload(),
    {
        &self.payload
    }
}

/// A provider-native standalone search request. It has no `Debug`.
#[derive(Clone, PartialEq)]
pub struct StandaloneSearchRequest {
    payload: RawJsonPayload,
}

impl StandaloneSearchRequest {
    pub closed spec fn spec_payload(&self) -> RawJsonPayload {
        self.payload
    }

    pub fn from_raw_json(payload: RawJsonPayload) -> (r: StandaloneSearchRequest)
        ensures
            r.spec_payload() == payload,
    {
        StandaloneSearchRequest { payload }
    }

    pub fn payload(&self) -> (r: &RawJsonPayload)
        ensures
            *r == self.spec_payload(),
    {
        &self.payload
    }
}

/// A provider-native token count request with the target model. It has no `Debug`.
#[derive(Clone, PartialEq)]
pub struct TokenCountRequest {
    payload: RawJsonPayload,
}

impl TokenCountRequest {
    pub closed spec fn spec_payload(&self) -> RawJsonPayload {
        self.payload
    }

    pub fn from_raw_json(payload: RawJsonPayload) -> (r: TokenCountRequest)
        ensures
            r.spec_payload() == payload,
    {
        TokenCountRequest { payload }
    }

    pub fn payload(&self) -> (r: &RawJsonPayload)
        ensures
            *r == self.spec_payload(),
    {
        &self.payload
    }
}

/// One HTTP header the API parsed. It has no `Debug`, so that values stay out of logs.
#[derive(Clone, PartialEq, Eq)]
pub struct ProviderHttpHeader {
    name: String,
    value: Vec<u8>,
}

impl ProviderHttpHeader {
    pub closed spec fn spec_name(&self) -> Seq<char> {
        self.name@
    }

    pub closed spec fn spec_value(&self) -> Seq<u8> {
        self.value@
    }

    pub fn new(name: String, value: Vec<u8>) -> (r: ProviderHttpHeader)
        ensures
            r.spec_name() == name@,
            r.spec_value() == value@,
    {
        ProviderHttpHeader { name, value }
    }

    pub fn name(&self) -> (r: &str)
        ensures
            r@ == self.spec_name(),
    {
        self.name.as_str()
    }

    pub fn value(&self) -> (r: &[u8])
        ensures
            r@ == self.spec_value(),
    {
        self.value.as_slice()
    }
}

pub open spec fn ascii_alphanumeric(b: u8) -> bool {
    (48 <= b <= 57) || (65 <= b <= 90) || (97 <= b <= 122)
}

/// A carriage return, line feed or NUL byte, which may not reach a request line or header.
pub open spec fn line_breaking(b: u8) -> bool {
    b == 13 || b == 10 || b == 0
}

/// A safe symbolic endpoint name: 1 to 64 bytes of ASCII letters, digits,
/// `-`, `_` or `.`, and neither `.` nor `..`.
pub open spec fn endpoint_valid(s: Seq<u8>) -> bool {
    &&& 0 < s.len() <= 64
    &&& s != seq![46u8]
    &&& s != seq![46u8, 46u8]
    &&& forall|i: int| 0 <= i < s.len() ==> (ascii_alphanumeric(#[trigger] s[i]) || s[i] == 45 || s[i] == 95 || s[i] == 46)
}

/// A query of at most 8 KiB without line-breaking bytes.
pub open spec fn query_valid(s: Seq<u8>) -> bool {
    s.len() <= 8192 && forall|i: int| 0 <= i < s.len() ==> !line_breaking(#[trigger] s[i])
}

/// A header name of 1 to 128 bytes of ASCII letters, digits or `-`.
pub open spec fn header_name_valid(s: Seq<u8>) -> bool {
    0 < s.len() <= 128 && forall|i: int| 0 <= i < s.len() ==> (ascii_alphanumeric(#[trigger] s[i]) || s[i] == 45)
}

/// A header value of at most 8 KiB without line-breaking bytes.
pub open spec fn header_value_valid(s: Seq<u8>) -> bool {
    s.len() <= 8192 && forall|i: int| 0 <= i < s.len() ==> !line_breaking(#[trigger] s[i])
}

/// The summed byte length of the names and values of `hs`.
pub open spec fn headers_size(hs: Seq<ProviderHttpHeader>) -> int
    decreases hs.len(),
{
    if hs.len() == 0 {
        0
    } else {
        headers_size(hs.drop_last()) + encode_utf8(hs.last().spec_name()).len() + hs.last().spec_value().len()
    }
}

/// At most 64 headers, each valid, of at most 32 KiB together.
pub open spec fn headers_valid(hs: Seq<ProviderHttpHeader>) -> bool {
    &&& hs.len() <= 64
    &&& forall|i: int| 0 <= i < hs.len() ==> header_name_valid(encode_utf8((#[trigger] hs[i]).spec_name()))
        && header_value_valid(hs[i].spec_value())
    &&& headers_size(hs) <= 32768
}

fn bytes_all_symbolic(s: &[u8], allow_underscore_and_dot: bool) -> (r: bool)
    ensures
        r == forall|i: int| 0 <= i < s@.len() ==> (ascii_alphanumeric(#[trigger] s@[i]) || s@[i] == 45
            || (allow_underscore_and_dot && (s@[i] == 95 || s@[i] == 46))),
{
    let mut i: usize = 0;
    while i < s.len()
        invariant
            i <= s.len(),
            forall|j: int| 0 <= j < i ==> (ascii_alphanumeric(#[trigger] s@[j]) || s@[j] == 45
                || (allow_underscore_and_dot && (s@[j] == 95 || s@[j] == 46))),
        decreases s.len() - i,
    {
        let c = s[i];
        let alnum = (48 <= c && c <= 57) || (65 <= c && c <= 90) || (97 <= c && c <= 122);
        if !(alnum || c == 45 || (allow_underscore_and_dot && (c == 95 || c == 46))) {
            return false;
        }
        i = i + 1;
    }
    true
}

fn bytes_free_of_line_breaks(s: &[u8]) -> (r: bool)
    ensures
        r == forall|i: int| 0 <= i < s@.len() ==> !line_breaking(#[trigger] s@[i]),
{
    let mut i: usize = 0;
    while i < s.len()
        invariant
            i <= s.len(),
            forall|j: int| 0 <= j < i ==> !line_breaking(#[trigger] s@[j]),
        decreases s.len() - i,
    {
        let c = s[i];
        if c == 13 || c == 10 || c == 0 {
            return false;
        }
        i = i + 1;
    }
    true
}

fn check_endpoint(endpoint: &str) -> (r: bool)
    ensures
        r == endpoint_valid(endpoint.spec_bytes()),
{
    let b = endpoint.as_bytes();
    if b.len() == 0 || b.len() > 64 {
        return false;
    }
    if b.len() == 1 && b[0] == 46 {
        assert(b@ =~= seq![46u8]);
        return false;
    }
    if b.len() == 2 && b[0] == 46 && b[1] == 46 {
        assert(b@ =~= seq![46u8, 46u8]);
        return false;
    }
    assert(b@ != seq![46u8]) by {
        if b@ == seq![46u8] {
            assert(b@[0] == 46);
        }
    }
    assert(b@ != seq![46u8, 46u8]) by {
        if b@ == seq![46u8, 46u8] {
            assert(b@[0] == 46 && b@[1] == 46);
        }
    }
    bytes_all_symbolic(b, true)
}

fn check_headers(headers: &Vec<ProviderHttpHeader>) -> (r: bool)
    ensures
        r == headers_valid(headers@),
{
    if headers.len() > 64 {
        return false;
    }
    let mut total: usize = 0;
    let mut i: usize = 0;
    while i < headers.len()
        invariant
            i <= headers.len() <= 64,
            total == headers_size(headers@.take(i as int)),
            total <= 32768,
            forall|j: int| 0 <= j < i ==> header_name_valid(encode_utf8((#[trigger] headers@[j]).spec_name()))
                && header_value_valid(headers@[j].spec_value()),
        decreases headers.len() - i,
    {
        let h = &headers[i];
        let name = h.name.as_str().as_bytes();
        let value = h.value.as_slice();
        let valid_name = name.len() > 0 && name.len() <= 128 && bytes_all_symbolic(name, false);
        let valid_value = value.len() <= 8192 && bytes_free_of_line_breaks(value);
        if !valid_name || !valid_value {
            return false;
        }
        assert(headers@.take(i as int + 1).drop_last() =~= headers@.take(i as int));
        let next = total + name.len() + value.len();
        if next > 32768 {
            proof {
                lemma_headers_size_monotonic(headers@, i as int + 1, headers@.len() as int);
                assert(headers@.take(headers@.len() as int) =~= headers@);
            }
            return false;
        }
        total = next;
        i = i + 1;
    }
    assert(headers@.take(i as int) =~= headers@);
    true
}

proof fn lemma_headers_size_monotonic(hs: Seq<ProviderHttpHeader>, m: int, n: int)
    requires
        0 <= m <= n <= hs.len(),
    ensures
        headers_size(hs.take(m)) <= headers_size(hs.take(n)),
    decreases n - m,
{
    if m < n {
        lemma_headers_size_monotonic(hs, m, n - 1);
        assert(hs.take(n).drop_last() =~= hs.take(n - 1));
    }
}

/// An account-authenticated HTTP operation a provider declared explicitly.
/// It has no `Debug`.
#[derive(Clone, PartialEq)]
pub struct ProviderHttpRequest {
    endpoint: String,
    method: ProviderHttpMethod,
    query: Option<String>,
    headers: Vec<ProviderHttpHeader>,
    payload: RawHttpPayload,
}

impl ProviderHttpRequest {
    pub closed spec fn spec_endpoint(&self) -> Seq<char> {
        self.endpoint@
    }

    pub closed spec fn spec_method(&self) -> ProviderHttpMethod {
        self.method
    }

    pub closed spec fn spec_query(&self) -> Option<Seq<char>> {
        match self.query {
            Some(q) => Some(q@),
            None => None,
        }
    }

    pub closed spec fn spec_headers(&self) -> Seq<ProviderHttpHeader> {
        self.headers@
    }

    pub closed spec fn spec_payload(&self) -> RawHttpPayload {
        self.payload
    }

    /// A request whose endpoint is a safe symbolic name, whose query and
    /// headers stay within their bounds.
    pub fn new(
        endpoint: String,
        method: ProviderHttpMethod,
        query: Option<String>,
        headers: Vec<ProviderHttpHeader>,
        payload: RawHttpPayload,
    ) -> (r: Result<ProviderHttpRequest, OperationError>)
        ensures
            r is Ok <==> (endpoint_valid(encode_utf8(endpoint@))
                && (match query { Some(q) => query_valid(encode_utf8(q@)), None => true })
                && headers_valid(headers@)),
            r matches Ok(req) ==> req.spec_endpoint() == endpoint@ && req.spec_method() == method
                && req.spec_query() == (match query { Some(q) => Some(q@), None => None::<Seq<char>> })
                && req.spec_headers() == headers@ && req.spec_payload() == payload,
            r matches Err(e) ==> (e matches OperationError::EmptyField { field }
                && field@ == "provider_http_request"@),
    {
        let valid_endpoint = check_endpoint(endpoint.as_str());
        let valid_query = match &query {
            Some(q) => {
                let b = q.as_str().as_bytes();
                b.len() <= 8192 && bytes_free_of_line_breaks(b)
            },
            None => true,
        };
        let valid_headers = check_headers(&headers);
        if !valid_endpoint || !valid_query || !valid_headers {
            return Err(OperationError::EmptyField { field: "provider_http_request" });
        }
        Ok(ProviderHttpRequest { endpoint, method, query, headers, payload })
    }

    pub fn endpoint(&self) -> (r: &str)
        ensures
            r@ == self.spec_endpoint(),
    {
        self.endpoint.as_str()
    }

    pub fn method(&self) -> (r: ProviderHttpMethod)
        ensures
            r == self.spec_method(),
    {
        self.method
    }

    pub fn query(&self) -> (r: Option<&str>)
        ensures
            r is Some == self.spec_query() is Some,
            r is Some ==> r->0@ == self.spec_query()->0,
    {
        match &self.query {
            Some(q) => Some(q.as_str()),
            None => None,
        }
    }

    pub fn headers(&self) -> (r: &[ProviderHttpHeader])
        ensures
            r@ == self.spec_headers(),
    {
        self.headers.as_slice()
    }

    pub fn payload(&self) -> (r: &RawHttpPayload)
        ensures
            *r == self.spec_payload(),
    {
        &self.payload
    }
}


// ---------------------------------------------------------------------------
// What routing reads of a generate body
// ---------------------------------------------------------------------------

/// The requested output token limit: `max_output_tokens` where it is a
/// positive integer.
pub open spec fn body_max_output_tokens(entries: Seq<(Seq<char>, JsonTree)>) -> Option<u64> {
    match json_member(entries, "max_output_tokens"@) {
        Some(JsonTree::Number { as_u64: Some(n), .. }) => if n > 0 { Some(n) } else { None },
        _ => None,
    }
}

/// `tools` is a non-empty array.
pub open spec fn body_has_tools(entries: Seq<(Seq<char>, JsonTree)>) -> bool {
    match json_member(entries, "tools"@) {
        Some(JsonTree::Array(items)) => items@.len() > 0,
        _ => false,
    }
}

/// `input` holds an `input_image` part at any depth.
pub open spec fn body_has_input_image(entries: Seq<(Seq<char>, JsonTree)>) -> bool {
    match json_member(entries, "input"@) {
        Some(t) => tree_contains_type(t, "input_image"@),
        None => false,
    }
}

/// `reasoning` is an object.
pub open spec fn body_has_reasoning(entries: Seq<(Seq<char>, JsonTree)>) -> bool {
    json_member_object(entries, "reasoning"@) is Some
}

/// `text.format.type` is `json_schema`.
pub open spec fn body_has_json_schema(entries: Seq<(Seq<char>, JsonTree)>) -> bool {
    match json_member_object(entries, "text"@) {
        Some(text) => match json_member_object(text, "format"@) {
            Some(format) => json_member_text(format, "type"@) == Some("json_schema"@),
            None => false,
        },
        None => false,
    }
}

/// The `type` of a tool entry, where the entry is an object with a string
/// `type`.
pub open spec fn tool_type(t: JsonTree) -> Option<Seq<char>> {
    match t {
        JsonTree::Object(members) => json_member_text(self::json::tree_entries(members@), "type"@),
        _ => None,
    }
}

/// `tools` is an array holding a tool of type `image_generation`.
pub open spec fn body_requests_image_generation(entries: Seq<(Seq<char>, JsonTree)>) -> bool {
    match json_member(entries, "tools"@) {
        Some(JsonTree::Array(items)) => exists|i: int|
            0 <= i < items@.len() && #[trigger] tool_type(items@[i]) == Some("image_generation"@),
        _ => false,
    }
}

/// `previous_response_id` is a string.
pub open spec fn body_requests_native_continuation(entries: Seq<(Seq<char>, JsonTree)>) -> bool {
    json_member_text(entries, "previous_response_id"@) is Some
}

/// The features a generate body requires, besides those a middleware chain
/// passed on.
pub open spec fn generate_features(entries: Seq<(Seq<char>, JsonTree)>, inherited: Set<Feature>) -> Set<Feature> {
    Set::new(
        |f: Feature|
            inherited.contains(f) || (f == Feature::Tools && body_has_tools(entries)) || (f == Feature::Vision
                && body_has_input_image(entries)) || (f == Feature::Reasoning && body_has_reasoning(entries)) || (f
                == Feature::JsonSchema && body_has_json_schema(entries)) || (f == Feature::NativeContinuation
                && body_requests_native_continuation(entries)),
    )
}

fn body_member_object<'a>(body: &'a serde_json::Map<String, serde_json::Value>, key: &str) -> (r: Option<
    &'a serde_json::Map<String, serde_json::Value>,
>)
    ensures
        match json_member_object(json_object_entries(*body), key@) {
            Some(es) => r matches Some(m) && json_object_entries(*m) == es,
            None => r is None,
        },
{
    match json_get(body, key) {
        Some(v) => json_as_object(v),
        None => None,
    }
}

fn body_member_text<'a>(body: &'a serde_json::Map<String, serde_json::Value>, key: &str) -> (r: Option<&'a str>)
    ensures
        match json_member_text(json_object_entries(*body), key@) {
            Some(t) => r matches Some(x) && x@ == t,
            None => r is None,
        },
{
    match json_get(body, key) {
        Some(v) => json_as_str(v),
        None => None,
    }
}

fn max_output_tokens_of(body: &serde_json::Map<String, serde_json::Value>) -> (r: Option<u64>)
    ensures
        r == body_max_output_tokens(json_object_entries(*body)),
{
    match json_get(body, "max_output_tokens") {
        Some(v) => match json_as_u64(v) {
            Some(n) => if n > 0 {
                Some(n)
            } else {
                None
            },
            None => None,
        },
        None => None,
    }
}

fn has_tools(body: &serde_json::Map<String, serde_json::Value>) -> (r: bool)
    ensures
        r == body_has_tools(json_object_entries(*body)),
{
    match json_get(body, "tools") {
        Some(v) => match json_as_array(v) {
            Some(items) => items.len() > 0,
            None => false,
        },
        None => false,
    }
}

fn has_input_image(body: &serde_json::Map<String, serde_json::Value>) -> (r: bool)
    ensures
        r == body_has_input_image(json_object_entries(*body)),
{
    match json_get(body, "input") {
        Some(v) => contains_type(v, "input_image"),
        None => false,
    }
}

fn has_json_schema(body: &serde_json::Map<String, serde_json::Value>) -> (r: bool)
    ensures
        r == body_has_json_schema(json_object_entries(*body)),
{
    match body_member_object(body, "text") {
        Some(text) => match body_member_object(text, "format") {
            Some(format) => match body_member_text(format, "type") {
                Some(kind) => {
                    proof {
                        reveal_strlit("json_schema");
                    }
                    crate::text::str_equal(kind, "json_schema")
                },
                None => false,
            },
            None => false,
        },
        None => false,
    }
}

// ---------------------------------------------------------------------------
// Operations
// ---------------------------------------------------------------------------

/// A generate request: the opaque protocol payload, provider session state,
/// and the capability requirements recorded before a protocol translation or
/// passed on by middleware. It has no `Debug`.
#[derive(Clone, PartialEq)]
pub struct GenerateRequest {
    protocol_payload: ProtocolPayload,
    provider_session_state: Option<ProviderSessionState>,
    source_requirements: Option<CapabilityRequirements>,
    middleware_requirements: Option<(CapabilityRequirements, CapabilityRequirements)>,
}

/// `r` are the capability requirements of `g`: those recorded before its
/// protocol translation, or else those its body implies together with the
/// features a middleware chain passed on.
pub open spec fn requirements_of(r: CapabilityRequirements, g: GenerateRequest) -> bool {
    match g.spec_source_requirements() {
        Some(s) => same_requirements(r, s),
        None => {
            let entries = json_object_entries(g.spec_protocol_payload().spec_body());
            let inherited = match g.spec_middleware_requirements() {
                Some(m) => m.1.spec_features(),
                None => Set::<Feature>::empty(),
            };
            &&& r.spec_operation() == OperationKind::Generate
            &&& r.spec_requested_output_tokens() == body_max_output_tokens(entries)
            &&& r.spec_features() == generate_features(entries, inherited)
        },
    }
}

/// Two constraints require the same operation, features and output tokens.
pub open spec fn same_requirements(a: CapabilityRequirements, b: CapabilityRequirements) -> bool {
    &&& a.spec_operation() == b.spec_operation()
    &&& a.spec_features() == b.spec_features()
    &&& a.spec_requested_output_tokens() == b.spec_requested_output_tokens()
}

proof fn lemma_feature_set_push(s: Seq<Feature>, f: Feature)
    ensures
        feature_set(s.push(f)) == feature_set(s).insert(f),
{
    assert forall|g: Feature| s.push(f).contains(g) <==> (s.contains(g) || g == f) by {
        if s.push(f).contains(g) && g != f {
            let j = choose|j: int| 0 <= j < s.push(f).len() && s.push(f)[j] == g;
            assert(s[j] == g);
        }
        if s.contains(g) {
            let j = choose|j: int| 0 <= j < s.len() && s[j] == g;
            assert(s.push(f)[j] == g);
        }
        if g == f {
            assert(s.push(f)[s.len() as int] == g);
        }
    }
    assert forall|g: Feature| #[trigger] feature_set(s.push(f)).contains(g) == feature_set(s).insert(f).contains(g) by {
        assert(feature_set(s.push(f)).contains(g) == s.push(f).contains(g));
        assert(feature_set(s).contains(g) == s.contains(g));
    }
    assert(feature_set(s.push(f)) =~= feature_set(s).insert(f));
}

impl CapabilityRequirements {
    /// An equal copy.
    pub fn duplicate(&self) -> (r: CapabilityRequirements)
        ensures
            same_requirements(r, *self),
            self.well_ordered() ==> r.well_ordered(),
    {
        let mut features: Vec<Feature> = Vec::new();
        let mut i: usize = 0;
        while i < self.features.len()
            invariant
                i <= self.features@.len(),
                features@ == self.features@.take(i as int),
            decreases self.features@.len() - i,
        {
            features.push(self.features[i]);
            i = i + 1;
        }
        assert(features@ =~= self.features@);
        assert(self.features@.take(self.features@.len() as int) =~= self.features@);
        CapabilityRequirements {
            operation: self.operation,
            features,
            requested_output_tokens: self.requested_output_tokens,
        }
    }
}

impl GenerateRequest {
    pub closed spec fn spec_protocol_payload(&self) -> ProtocolPayload {
        self.protocol_payload
    }

    pub closed spec fn spec_provider_session_state(&self) -> Option<ProviderSessionState> {
        self.provider_session_state
    }

    pub closed spec fn spec_source_requirements(&self) -> Option<CapabilityRequirements> {
        self.source_requirements
    }

    pub closed spec fn spec_middleware_requirements(&self) -> Option<(CapabilityRequirements, CapabilityRequirements)> {
        self.middleware_requirements
    }

    /// A generate request carrying the protocol's opaque payload.
    pub fn from_protocol_payload(protocol_payload: ProtocolPayload) -> (r: GenerateRequest)
        ensures
            r.spec_protocol_payload() == protocol_payload,
            r.spec_provider_session_state() is None,
            r.spec_source_requirements() is None,
            r.spec_middleware_requirements() is None,
    {
        GenerateRequest {
            protocol_payload,
            provider_session_state: None,
            source_requirements: None,
            middleware_requirements: None,
        }
    }

    pub fn protocol_payload(&self) -> (r: &ProtocolPayload)
        ensures
            *r == self.spec_protocol_payload(),
    {
        &self.protocol_payload
    }

    /// Attaches the opaque state a provider returned on the same client
    /// connection.
    pub fn with_provider_session_state(self, state: ProviderSessionState) -> (r: GenerateRequest)
        ensures
            r.spec_provider_session_state() == Some(state),
            r.spec_protocol_payload() == self.spec_protocol_payload(),
            r.spec_source_requirements() == self.spec_source_requirements(),
            r.spec_middleware_requirements() == self.spec_middleware_requirements(),
    {
        let mut r = self;
        r.provider_session_state = Some(state);
        r
    }

    /// The maximum number of output tokens, where the body gives a positive
    /// one.
    pub fn max_output_tokens(&self) -> (r: Option<u64>)
        ensures
            r == body_max_output_tokens(json_object_entries(self.spec_protocol_payload().spec_body())),
    {
        max_output_tokens_of(self.protocol_payload.body())
    }

    /// Whether the client asked for the image generation tool.
    pub fn image_generation_requested(&self) -> (r: bool)
        ensures
            r == body_requests_image_generation(json_object_entries(self.spec_protocol_payload().spec_body())),
    {
        let body = self.protocol_payload.body();
        let tools = match json_get(body, "tools") {
            Some(v) => match json_as_array(v) {
                Some(items) => items,
                None => return false,
            },
            None => return false,
        };
        let ghost items_tree = match json_member(json_object_entries(*body), "tools"@) {
            Some(JsonTree::Array(items)) => items,
            _ => arbitrary(),
        };
        let mut i: usize = 0;
        while i < tools.len()
            invariant
                *body == self.spec_protocol_payload().spec_body(),
                i <= tools@.len(),
                tools@.len() == items_tree@.len(),
                json_member(json_object_entries(*body), "tools"@) == Some(JsonTree::Array(items_tree)),
                forall|k: int| 0 <= k < tools@.len() ==> self::json::json_value_tree(*#[trigger] tools@[k]) == items_tree@[k],
                forall|k: int| 0 <= k < i ==> #[trigger] tool_type(items_tree@[k]) != Some("image_generation"@),
            decreases tools@.len() - i,
        {
            let is_image = match json_as_object(tools[i]) {
                Some(tool) => match body_member_text(tool, "type") {
                    Some(kind) => {
                        proof {
                            reveal_strlit("image_generation");
                        }
                        crate::text::str_equal(kind, "image_generation")
                    },
                    None => false,
                },
                None => false,
            };
            if is_image {
                assert(tool_type(items_tree@[i as int]) == Some("image_generation"@));
                return true;
            }
            i = i + 1;
        }
        false
    }

    /// The client's prompt cache routing key, where it is a string that is
    /// not blank.
    pub fn prompt_cache_key(&self) -> (r: Option<&str>)
        ensures
            match json_member_text(json_object_entries(self.spec_protocol_payload().spec_body()), "prompt_cache_key"@) {
                Some(t) => if crate::text::trim_spec(t).len() > 0 {
                    r matches Some(k) && k@ == t
                } else {
                    r is None
                },
                None => r is None,
            },
    {
        match body_member_text(self.protocol_payload.body(), "prompt_cache_key") {
            Some(key) => if crate::text::is_blank(key) {
                None
            } else {
                Some(key)
            },
            None => None,
        }
    }

    /// Writes back a provider's native encoding of the body, keeping the
    /// connection context and session state; the requirements admitted
    /// before are recorded, so routing keeps using them.
    pub fn with_native_encoded_body(self, protocol: String, body: serde_json::Map<String, serde_json::Value>) -> (r:
        Result<GenerateRequest, OperationError>)
        ensures
            text_error_of(protocol@, 64, true, None) is Some ==> (r matches Err(OperationError::EmptyField { field })
                && field@ == "protocol_payload protocol"@),
            text_error_of(protocol@, 64, true, None) is None ==> (r matches Ok(n) && n.spec_protocol_payload().spec_protocol()
                == protocol@ && n.spec_protocol_payload().spec_body() == body && n.spec_protocol_payload().spec_context()
                == self.spec_protocol_payload().spec_context() && n.spec_provider_session_state()
                == self.spec_provider_session_state() && n.spec_middleware_requirements()
                == self.spec_middleware_requirements() && (n.spec_source_requirements() matches Some(s)
                && requirements_of(s, self))),
    {
        if validate_text(protocol.as_str(), 64, true, None).is_err() {
            return Err(OperationError::EmptyField { field: "protocol_payload protocol" });
        }
        let requirements = self.requirements();
        let encoded = ProtocolPayload { protocol, body, context: self.protocol_payload.context };
        Ok(
            GenerateRequest {
                protocol_payload: encoded,
                provider_session_state: self.provider_session_state,
                source_requirements: Some(requirements),
                middleware_requirements: self.middleware_requirements,
            },
        )
    }

    /// Whether the body asks for a provider-native continuation.
    pub fn native_continuation_requested(&self) -> (r: bool)
        ensures
            r == body_requests_native_continuation(json_object_entries(self.spec_protocol_payload().spec_body())),
    {
        body_member_text(self.protocol_payload.body(), "previous_response_id").is_some()
    }

    /// The connection-local session state of `provider`.
    pub fn provider_session_state(&self, provider: &str) -> (r: Option<&ProviderSessionState>)
        ensures
            match self.spec_provider_session_state() {
                Some(s) => if s.spec_provider() == provider@ {
                    r matches Some(x) && *x == s
                } else {
                    r is None
                },
                None => r is None,
            },
    {
        match &self.provider_session_state {
            Some(s) => if crate::text::str_equal(s.provider(), provider) {
                Some(s)
            } else {
                None
            },
            None => None,
        }
    }

    /// The capability requirements routing uses.
    fn requirements(&self) -> (r: CapabilityRequirements)
        ensures
            requirements_of(r, *self),
    {
        if let Some(recorded) = &self.source_requirements {
            return recorded.duplicate();
        }
        let body = self.protocol_payload.body();
        let ghost entries = json_object_entries(*body);
        let mut r = CapabilityRequirements::new(OperationKind::Generate).with_requested_output_tokens(
            max_output_tokens_of(body),
        );
        let ghost inherited = match self.spec_middleware_requirements() {
            Some(m) => m.1.spec_features(),
            None => Set::<Feature>::empty(),
        };
        if let Some(middleware) = &self.middleware_requirements {
            let features = middleware.1.features();
            let mut i: usize = 0;
            while i < features.len()
                invariant
                    i <= features@.len(),
                    r.spec_operation() == OperationKind::Generate,
                    r.spec_requested_output_tokens() == body_max_output_tokens(entries),
                    r.spec_features() == feature_set(features@.take(i as int)),
                decreases features@.len() - i,
            {
                let ghost before = r.spec_features();
                r = r.require(features[i]);
                proof {
                    assert(features@.take(i + 1) =~= features@.take(i as int).push(features@[i as int]));
                    lemma_feature_set_push(features@.take(i as int), features@[i as int]);
                }
                i = i + 1;
            }
            proof {
                assert(features@.take(features@.len() as int) =~= features@);
            }
        } else {
            assert(r.spec_features() =~= feature_set(Seq::<Feature>::empty()));
        }
        assert(r.spec_features() =~= inherited);
        let tools = has_tools(body);
        let vision = has_input_image(body);
        let reasoning = body_member_object(body, "reasoning").is_some();
        let schema = has_json_schema(body);
        let continuation = body_member_text(body, "previous_response_id").is_some();
        if tools {
            r = r.require(Feature::Tools);
        }
        if vision {
            r = r.require(Feature::Vision);
        }
        if reasoning {
            r = r.require(Feature::Reasoning);
        }
        if schema {
            r = r.require(Feature::JsonSchema);
        }
        if continuation {
            r = r.require(Feature::NativeContinuation);
        }
        assert(r.spec_features() =~= generate_features(entries, inherited));
        r
    }
}

/// The gateway's business request; no client wire or provider SDK type
/// appears in it. It has no `Debug`.
#[derive(Clone, PartialEq)]
pub enum Operation {
    Generate(GenerateRequest),
    GenerateImage(ImageRequest),
    Search(StandaloneSearchRequest),
    CountTokens(TokenCountRequest),
    ProviderHttp(ProviderHttpRequest),
}

/// The raw JSON payload of a non-generate operation.
pub open spec fn raw_json_payload_of(op: Operation) -> Option<RawJsonPayload> {
    match op {
        Operation::GenerateImage(r) => Some(r.spec_payload()),
        Operation::Search(r) => Some(r.spec_payload()),
        Operation::CountTokens(r) => Some(r.spec_payload()),
        _ => None,
    }
}

impl Operation {
    /// The stable operation kind.
    pub open spec fn spec_kind(&self) -> OperationKind {
        match *self {
            Operation::Generate(_) => OperationKind::Generate,
            Operation::GenerateImage(_) => OperationKind::GenerateImage,
            Operation::Search(_) => OperationKind::Search,
            Operation::CountTokens(_) => OperationKind::CountTokens,
            Operation::ProviderHttp(_) => OperationKind::ProviderHttp,
        }
    }

    /// The opaque protocol name of the payload.
    pub open spec fn spec_protocol(&self) -> Seq<char> {
        match *self {
            Operation::Generate(g) => g.spec_protocol_payload().spec_protocol(),
            Operation::GenerateImage(r) => r.spec_payload().spec_protocol(),
            Operation::Search(r) => r.spec_payload().spec_protocol(),
            Operation::CountTokens(r) => r.spec_payload().spec_protocol(),
            Operation::ProviderHttp(r) => r.spec_payload().spec_protocol(),
        }
    }

    /// The payload already went through its one cross-protocol translation.
    pub open spec fn spec_was_translated(&self) -> bool {
        match *self {
            Operation::Generate(g) => g.spec_source_requirements() is Some,
            Operation::GenerateImage(r) => r.spec_payload().spec_translated(),
            Operation::Search(r) => r.spec_payload().spec_translated(),
            Operation::CountTokens(r) => r.spec_payload().spec_translated(),
            Operation::ProviderHttp(r) => r.spec_payload().spec_translated(),
        }
    }

    /// The connection context of the payload.
    pub open spec fn spec_context(&self) -> serde_json::Map<String, serde_json::Value> {
        match *self {
            Operation::Generate(g) => g.spec_protocol_payload().spec_context(),
            Operation::GenerateImage(r) => r.spec_payload().spec_context(),
            Operation::Search(r) => r.spec_payload().spec_context(),
            Operation::CountTokens(r) => r.spec_payload().spec_context(),
            Operation::ProviderHttp(r) => r.spec_payload().spec_context(),
        }
    }

    pub fn kind(&self) -> (r: OperationKind)
        ensures
            r == self.spec_kind(),
    {
        match self {
            Operation::Generate(_) => OperationKind::Generate,
            Operation::GenerateImage(_) => OperationKind::GenerateImage,
            Operation::Search(_) => OperationKind::Search,
            Operation::CountTokens(_) => OperationKind::CountTokens,
            Operation::ProviderHttp(_) => OperationKind::ProviderHttp,
        }
    }

    /// The opaque format name the protocol adapter holds.
    pub fn protocol(&self) -> (r: &str)
        ensures
            r@ == self.spec_protocol(),
    {
        match self {
            Operation::Generate(g) => g.protocol_payload.protocol(),
            Operation::GenerateImage(r) => r.payload.protocol(),
            Operation::Search(r) => r.payload.protocol(),
            Operation::CountTokens(r) => r.payload.protocol(),
            Operation::ProviderHttp(r) => r.payload.protocol(),
        }
    }

    fn was_translated(&self) -> (r: bool)
        ensures
            r == self.spec_was_translated(),
    {
        match self {
            Operation::Generate(g) => g.source_requirements.is_some(),
            Operation::GenerateImage(r) => r.payload.translated,
            Operation::Search(r) => r.payload.translated,
            Operation::CountTokens(r) => r.payload.translated,
            Operation::ProviderHttp(r) => r.payload.translated,
        }
    }

    /// Records the requirements a middleware chain started from and those it
    /// passes on; only a generate request carries them.
    pub fn with_middleware_requirements(self, original: CapabilityRequirements, inherited: CapabilityRequirements) -> (r:
        Result<Operation, OperationError>)
        ensures
            match self {
                Operation::Generate(g) => r matches Ok(Operation::Generate(n)) && n.spec_middleware_requirements()
                    == Some((original, inherited)) && n.spec_protocol_payload() == g.spec_protocol_payload()
                    && n.spec_provider_session_state() == g.spec_provider_session_state()
                    && n.spec_source_requirements() == g.spec_source_requirements(),
                _ => r matches Err(OperationError::EmptyField { field }) && field@ == "middleware capabilities"@,
            },
    {
        match self {
            Operation::Generate(g) => {
                let mut n = g;
                n.middleware_requirements = Some((original, inherited));
                Ok(Operation::Generate(n))
            },
            _ => Err(OperationError::EmptyField { field: "middleware capabilities" }),
        }
    }

    /// The requirements before a middleware rewrote the request, for
    /// diagnostics; routing always uses the current ones.
    pub fn original_capability_requirements(&self) -> (r: CapabilityRequirements)
        ensures
            match *self {
                Operation::Generate(g) => match g.spec_middleware_requirements() {
                    Some(m) => same_requirements(r, m.0),
                    None => requirements_of(r, g),
                },
                _ => r.spec_operation() == self.spec_kind() && r.spec_features() == Set::<Feature>::empty()
                    && r.spec_requested_output_tokens() is None,
            },
    {
        if let Operation::Generate(g) = self {
            if let Some(m) = &g.middleware_requirements {
                return m.0.duplicate();
            }
        }
        self.capability_requirements()
    }

    /// The protocol body as a middleware sees it: a generate body encoded as
    /// JSON, a raw body as it is; never the context or session state.
    pub fn middleware_body(&self) -> (r: Result<Vec<u8>, OperationError>)
        ensures
            match *self {
                Operation::Generate(g) => match r {
                    Ok(b) => b@ == json_object_bytes(g.spec_protocol_payload().spec_body()),
                    Err(e) => e matches OperationError::EmptyField { field } && field@ == "protocol_payload body"@,
                },
                Operation::GenerateImage(q) => r matches Ok(b) && b@ == q.spec_payload().spec_body(),
                Operation::Search(q) => r matches Ok(b) && b@ == q.spec_payload().spec_body(),
                Operation::CountTokens(q) => r matches Ok(b) && b@ == q.spec_payload().spec_body(),
                Operation::ProviderHttp(q) => r matches Ok(b) && b@ == q.spec_payload().spec_body(),
            },
    {
        match self {
            Operation::Generate(g) => match json_object_to_vec(g.protocol_payload.body()) {
                Some(b) => Ok(b),
                None => Err(OperationError::EmptyField { field: "protocol_payload body" }),
            },
            Operation::GenerateImage(q) => Ok(crate::text::copy_bytes(q.payload.body.as_slice())),
            Operation::Search(q) => Ok(crate::text::copy_bytes(q.payload.body.as_slice())),
            Operation::CountTokens(q) => Ok(crate::text::copy_bytes(q.payload.body.as_slice())),
            Operation::ProviderHttp(q) => Ok(crate::text::copy_bytes(q.payload.body.as_slice())),
        }
    }

    /// Whether the operation is an image generation: every image request,
    /// and a generate request that asks for the image generation tool.
    pub fn image_generation_requested(&self) -> (r: bool)
        ensures
            r == (match *self {
                Operation::Generate(g) => body_requests_image_generation(
                    json_object_entries(g.spec_protocol_payload().spec_body()),
                ),
                Operation::GenerateImage(_) => true,
                _ => false,
            }),
    {
        match self {
            Operation::Generate(g) => g.image_generation_requested(),
            Operation::GenerateImage(_) => true,
            _ => false,
        }
    }

    /// The capability requirements routing uses: a generate request's own,
    /// only the operation for the others.
    pub fn capability_requirements(&self) -> (r: CapabilityRequirements)
        ensures
            match *self {
                Operation::Generate(g) => requirements_of(r, g),
                _ => r.spec_operation() == self.spec_kind() && r.spec_features() == Set::<Feature>::empty()
                    && r.spec_requested_output_tokens() is None,
            },
    {
        match self {
            Operation::Generate(g) => g.requirements(),
            _ => CapabilityRequirements::new(self.kind()),
        }
    }

    /// The connection-local session state of `provider`; only a generate
    /// request carries one.
    pub fn provider_session_state(&self, provider: &str) -> (r: Option<&ProviderSessionState>)
        ensures
            match *self {
                Operation::Generate(g) => match g.spec_provider_session_state() {
                    Some(s) => if s.spec_provider() == provider@ {
                        r matches Some(x) && *x == s
                    } else {
                        r is None
                    },
                    None => r is None,
                },
                _ => r is None,
            },
    {
        match self {
            Operation::Generate(g) => g.provider_session_state(provider),
            _ => None,
        }
    }

    /// Attaches a provider's connection-local state; other operations stay
    /// as they are.
    pub fn with_provider_session_state(self, state: ProviderSessionState) -> (r: Operation)
        ensures
            match self {
                Operation::Generate(g) => r matches Operation::Generate(n) && n.spec_provider_session_state() == Some(
                    state,
                ) && n.spec_protocol_payload() == g.spec_protocol_payload() && n.spec_source_requirements()
                    == g.spec_source_requirements() && n.spec_middleware_requirements()
                    == g.spec_middleware_requirements(),
                _ => r == self,
            },
    {
        match self {
            Operation::Generate(g) => Operation::Generate(g.with_provider_session_state(state)),
            other => other,
        }
    }

    fn replace_wire(
        self,
        target_protocol: Option<String>,
        body: Option<Vec<u8>>,
        context: Option<serde_json::Map<String, serde_json::Value>>,
    ) -> (r: Result<Operation, OperationError>)
        ensures
            replaced_wire(self, target_protocol, body, context, r),
    {
        let translating = target_protocol.is_some();
        match self {
            Operation::Generate(g) => {
                let recorded = if translating {
                    Some(g.requirements())
                } else {
                    None
                };
                let payload = g.protocol_payload;
                let new_body = match body {
                    Some(bytes) => match json_object_from_slice(bytes.as_slice()) {
                        Some(parsed) => parsed,
                        None => {
                            return Err(OperationError::EmptyField { field: "protocol_payload body" });
                        },
                    },
                    None => payload.body,
                };
                let replacement = ProtocolPayload {
                    protocol: match target_protocol {
                        Some(p) => p,
                        None => payload.protocol,
                    },
                    body: new_body,
                    context: match context {
                        Some(c) => c,
                        None => payload.context,
                    },
                };
                let source_requirements = match recorded {
                    Some(req) => Some(req),
                    None => g.source_requirements,
                };
                Ok(
                    Operation::Generate(
                        GenerateRequest {
                            protocol_payload: replacement,
                            provider_session_state: g.provider_session_state,
                            source_requirements,
                            middleware_requirements: g.middleware_requirements,
                        },
                    ),
                )
            },
            Operation::GenerateImage(request) => Ok(
                Operation::GenerateImage(
                    ImageRequest {
                        kind: request.kind,
                        payload: replaced_raw_json(request.payload, target_protocol, body, context),
                    },
                ),
            ),
            Operation::Search(request) => Ok(
                Operation::Search(
                    StandaloneSearchRequest {
                        payload: replaced_raw_json(request.payload, target_protocol, body, context),
                    },
                ),
            ),
            Operation::CountTokens(request) => Ok(
                Operation::CountTokens(
                    TokenCountRequest {
                        payload: replaced_raw_json(request.payload, target_protocol, body, context),
                    },
                ),
            ),
            Operation::ProviderHttp(request) => {
                let p = request.payload;
                let translated = p.translated || translating;
                let payload = RawHttpPayload {
                    protocol: match target_protocol {
                        Some(t) => t,
                        None => p.protocol,
                    },
                    body: match body {
                        Some(b) => b,
                        None => p.body,
                    },
                    context: match context {
                        Some(c) => c,
                        None => p.context,
                    },
                    translated,
                };
                Ok(
                    Operation::ProviderHttp(
                        ProviderHttpRequest {
                            endpoint: request.endpoint,
                            method: request.method,
                            query: request.query,
                            headers: request.headers,
                            payload,
                        },
                    ),
                )
            },
        }
    }

    /// Replaces the protocol body and the connection context, keeping the
    /// operation kind, the provider session state and the protocol name.
    /// `body == None` only replaces the context. A generate body must be a
    /// JSON object; raw JSON endpoints keep their bytes as they are.
    pub fn replace_protocol_wire(self, body: Option<Vec<u8>>, context: serde_json::Map<String, serde_json::Value>) -> (r:
        Result<Operation, OperationError>)
        ensures
            replaced_wire(self, None, body, Some(context), r),
    {
        self.replace_wire(None, body, Some(context))
    }

    /// Writes back the protocol and body a middleware returned: the same
    /// protocol replaces the body and keeps the context; another protocol
    /// goes through the one direct translation.
    pub fn replace_middleware_wire(self, protocol: String, body: Vec<u8>) -> (r: Result<Operation, OperationError>)
        ensures
            self.spec_protocol() == protocol@ ==> replaced_wire(self, None, Some(body), None, r),
            self.spec_protocol() != protocol@ ==> {
                &&& text_error_of(protocol@, 64, true, None) is Some ==> r is Err && (r->Err_0 matches OperationError::EmptyField { field } && field@ == "translated protocol"@)
                &&& text_error_of(protocol@, 64, true, None) is None && self.spec_was_translated() ==> r is Err && (
                r->Err_0 matches OperationError::EmptyField { field } && field@ == "direct protocol translation"@)
                &&& text_error_of(protocol@, 64, true, None) is None && !self.spec_was_translated()
                    ==> replaced_wire(self, Some(protocol), Some(body), None, r)
            },
    {
        if !crate::text::str_equal(self.protocol(), protocol.as_str()) {
            return self.translate_protocol_wire(protocol, body);
        }
        self.replace_wire(None, Some(body), None)
    }

    /// Replaces a provider HTTP body, context and headers, keeping the
    /// endpoint, method and query; the headers are held to the request's
    /// bounds again. Any other operation is refused.
    pub fn replace_provider_http_wire(
        self,
        body: Option<Vec<u8>>,
        context: serde_json::Map<String, serde_json::Value>,
        headers: Vec<ProviderHttpHeader>,
    ) -> (r: Result<Operation, OperationError>)
        ensures
            match self {
                Operation::ProviderHttp(req) => if headers_valid(headers@) {
                    r matches Ok(Operation::ProviderHttp(n)) && n.spec_endpoint() == req.spec_endpoint()
                        && n.spec_method() == req.spec_method() && n.spec_query() == req.spec_query()
                        && n.spec_headers() == headers@ && n.spec_payload().spec_protocol()
                        == req.spec_payload().spec_protocol() && n.spec_payload().spec_body() == (match body {
                        Some(b) => b@,
                        None => req.spec_payload().spec_body(),
                    }) && n.spec_payload().spec_context() == context && n.spec_payload().spec_translated()
                        == req.spec_payload().spec_translated()
                } else {
                    r matches Err(OperationError::EmptyField { field }) && field@ == "provider_http_request"@
                },
                _ => r matches Err(OperationError::EmptyField { field }) && field@ == "provider_http_request"@,
            },
    {
        match self {
            Operation::ProviderHttp(request) => {
                if !check_headers(&headers) {
                    return Err(OperationError::EmptyField { field: "provider_http_request" });
                }
                let p = request.payload;
                let payload = RawHttpPayload {
                    protocol: p.protocol,
                    body: match body {
                        Some(b) => b,
                        None => p.body,
                    },
                    context,
                    translated: p.translated,
                };
                Ok(
                    Operation::ProviderHttp(
                        ProviderHttpRequest {
                            endpoint: request.endpoint,
                            method: request.method,
                            query: request.query,
                            headers,
                            payload,
                        },
                    ),
                )
            },
            _ => Err(OperationError::EmptyField { field: "provider_http_request" }),
        }
    }

    /// Writes one chosen protocol translation back, keeping the connection
    /// context and the provider session state. The target protocol must be
    /// a valid name other than the current one, and an operation is
    /// translated at most once; a generate request records the capability
    /// requirements of its source request.
    pub fn translate_protocol_wire(self, target_protocol: String, body: Vec<u8>) -> (r: Result<Operation, OperationError>)
        ensures
            text_error_of(target_protocol@, 64, true, None) is Some ==> r is Err && (r->Err_0 matches OperationError::EmptyField { field } && field@ == "translated protocol"@),
            text_error_of(target_protocol@, 64, true, None) is None && (self.spec_protocol() == target_protocol@
                || self.spec_was_translated()) ==> r is Err && (r->Err_0 matches OperationError::EmptyField { field }
                && field@ == "direct protocol translation"@),
            text_error_of(target_protocol@, 64, true, None) is None && !(self.spec_protocol() == target_protocol@
                || self.spec_was_translated()) ==> replaced_wire(self, Some(target_protocol), Some(body), None, r),
    {
        if validate_text(target_protocol.as_str(), 64, true, None).is_err() {
            return Err(OperationError::EmptyField { field: "translated protocol" });
        }
        if crate::text::str_equal(self.protocol(), target_protocol.as_str()) || self.was_translated() {
            return Err(OperationError::EmptyField { field: "direct protocol translation" });
        }
        self.replace_wire(Some(target_protocol), Some(body), None)
    }
}

/// A raw JSON payload with a replaced protocol, body and context.
fn replaced_raw_json(
    p: RawJsonPayload,
    target_protocol: Option<String>,
    body: Option<Vec<u8>>,
    context: Option<serde_json::Map<String, serde_json::Value>>,
) -> (r: RawJsonPayload)
    ensures
        r.spec_protocol() == (match target_protocol {
            Some(t) => t@,
            None => p.spec_protocol(),
        }),
        r.spec_body() == (match body {
            Some(b) => b@,
            None => p.spec_body(),
        }),
        r.spec_context() == (match context {
            Some(c) => c,
            None => p.spec_context(),
        }),
        r.spec_translated() == (p.spec_translated() || target_protocol is Some),
{
    let translated = p.translated || target_protocol.is_some();
    RawJsonPayload {
        protocol: match target_protocol {
            Some(t) => t,
            None => p.protocol,
        },
        body: match body {
            Some(b) => b,
            None => p.body,
        },
        context: match context {
            Some(c) => c,
            None => p.context,
        },
        translated,
    }
}

/// A raw payload after the wire was replaced.
pub open spec fn raw_replaced(
    before_protocol: Seq<char>,
    before_body: Seq<u8>,
    before_context: serde_json::Map<String, serde_json::Value>,
    before_translated: bool,
    after_protocol: Seq<char>,
    after_body: Seq<u8>,
    after_context: serde_json::Map<String, serde_json::Value>,
    after_translated: bool,
    target_protocol: Option<String>,
    body: Option<Vec<u8>>,
    context: Option<serde_json::Map<String, serde_json::Value>>,
) -> bool {
    &&& after_protocol == (match target_protocol {
        Some(t) => t@,
        None => before_protocol,
    })
    &&& after_body == (match body {
        Some(b) => b@,
        None => before_body,
    })
    &&& after_context == (match context {
        Some(c) => c,
        None => before_context,
    })
    &&& after_translated == (before_translated || target_protocol is Some)
}

/// `r` is `op` with its wire replaced: the protocol becomes the target, if
/// any; the body the given one, if any; the context the given one, if any.
/// The kind and every other part stay. A raw payload is marked translated
/// when a target protocol is given; a translated generate request records
/// the requirements of its source, and its new body must be a JSON object.
pub open spec fn replaced_wire(
    op: Operation,
    target_protocol: Option<String>,
    body: Option<Vec<u8>>,
    context: Option<serde_json::Map<String, serde_json::Value>>,
    r: Result<Operation, OperationError>,
) -> bool {
    match op {
        Operation::Generate(g) => {
            let p = g.spec_protocol_payload();
            if body matches Some(b) && json_object_from_bytes(b@) is None {
                r matches Err(OperationError::EmptyField { field }) && field@ == "protocol_payload body"@
            } else {
                r matches Ok(Operation::Generate(n)) && {
                    let q = n.spec_protocol_payload();
                    &&& q.spec_protocol() == (match target_protocol {
                        Some(t) => t@,
                        None => p.spec_protocol(),
                    })
                    &&& (match body {
                        Some(b) => json_object_from_bytes(b@) == Some(json_object_entries(q.spec_body())),
                        None => q.spec_body() == p.spec_body(),
                    })
                    &&& q.spec_context() == (match context {
                        Some(c) => c,
                        None => p.spec_context(),
                    })
                    &&& n.spec_provider_session_state() == g.spec_provider_session_state()
                    &&& n.spec_middleware_requirements() == g.spec_middleware_requirements()
                    &&& (match target_protocol {
                        Some(_) => n.spec_source_requirements() matches Some(s) && requirements_of(s, g),
                        None => n.spec_source_requirements() == g.spec_source_requirements(),
                    })
                }
            }
        },
        Operation::GenerateImage(req) => r matches Ok(Operation::GenerateImage(n)) && n.spec_kind() == req.spec_kind()
            && raw_replaced(
            req.spec_payload().spec_protocol(),
            req.spec_payload().spec_body(),
            req.spec_payload().spec_context(),
            req.spec_payload().spec_translated(),
            n.spec_payload().spec_protocol(),
            n.spec_payload().spec_body(),
            n.spec_payload().spec_context(),
            n.spec_payload().spec_translated(),
            target_protocol,
            body,
            context,
        ),
        Operation::Search(req) => r matches Ok(Operation::Search(n)) && raw_replaced(
            req.spec_payload().spec_protocol(),
            req.spec_payload().spec_body(),
            req.spec_payload().spec_context(),
            req.spec_payload().spec_translated(),
            n.spec_payload().spec_protocol(),
            n.spec_payload().spec_body(),
            n.spec_payload().spec_context(),
            n.spec_payload().spec_translated(),
            target_protocol,
            body,
            context,
        ),
        Operation::CountTokens(req) => r matches Ok(Operation::CountTokens(n)) && raw_replaced(
            req.spec_payload().spec_protocol(),
            req.spec_payload().spec_body(),
            req.spec_payload().spec_context(),
            req.spec_payload().spec_translated(),
            n.spec_payload().spec_protocol(),
            n.spec_payload().spec_body(),
            n.spec_payload().spec_context(),
            n.spec_payload().spec_translated(),
            target_protocol,
            body,
            context,
        ),
        Operation::ProviderHttp(req) => r matches Ok(Operation::ProviderHttp(n)) && n.spec_endpoint()
            == req.spec_endpoint() && n.spec_method() == req.spec_method() && n.spec_query() == req.spec_query()
            && n.spec_headers() == req.spec_headers() && raw_replaced(
            req.spec_payload().spec_protocol(),
            req.spec_payload().spec_body(),
            req.spec_payload().spec_context(),
            req.spec_payload().spec_translated(),
            n.spec_payload().spec_protocol(),
            n.spec_payload().spec_body(),
            n.spec_payload().spec_context(),
            n.spec_payload().spec_translated(),
            target_protocol,
            body,
            context,
        ),
    }
}

} // verus!
