//! The routing and continuation decisions a request takes before its first
//! attempt: the provider a nested request is held to, where the routing
//! policy sends a model request, and how a previous response is bound.

use vstd::prelude::*;

use crate::credential::selection::{ids_contain, AccountScope};
use crate::engine::continuation::{
    ContinuationBinding, NativeContinuationPin, NativeContinuationStoreErrorKind, PreviousResponseId,
};
use crate::engine::policy::ModelRouteDecision;
use crate::engine::EngineError;
use crate::error::{gateway_kind_for, gateway_message_for, GatewayError, GatewayErrorKind};
use crate::identity::{ProviderKind, PublicModelId};
use crate::policy::{ClientApiKeyId, ClientPolicy};
use crate::time::UnixTime;
use vstd::string::StringSliceAdditionalSpecFns;
use vstd::string::StringExecFns;

verus! {

/// `kinds` holds a provider named `kind`.
pub open spec fn kinds_contain(kinds: Seq<ProviderKind>, kind: Seq<char>) -> bool {
    exists|k: int| 0 <= k < kinds.len() && (#[trigger] kinds[k])@ == kind
}

/// The name of an optional provider.
pub open spec fn kind_name(kind: Option<ProviderKind>) -> Option<Seq<char>> {
    match kind {
        Some(k) => Some(k@),
        None => None,
    }
}

/// The name of an optional borrowed provider.
pub open spec fn ref_kind_name(kind: Option<&ProviderKind>) -> Option<Seq<char>> {
    match kind {
        Some(k) => Some(k@),
        None => None,
    }
}

/// `e` is the plain gateway error of `kind` with the safe `message`.
pub open spec fn plain_error(e: GatewayError, kind: GatewayErrorKind, message: Seq<char>) -> bool {
    &&& e.spec_kind() == kind
    &&& e.spec_message() == message
    &&& e.spec_diagnostic() is None
    &&& e.spec_client_visible_upstream_error() is None
}

fn contains_kind(kinds: &[ProviderKind], kind: &ProviderKind) -> (r: bool)
    ensures
        r == kinds_contain(kinds@, kind@),
{
    let mut k: usize = 0;
    while k < kinds.len()
        invariant
            k <= kinds@.len(),
            forall|j: int| 0 <= j < k ==> (#[trigger] kinds@[j])@ != kind@,
        decreases kinds@.len() - k,
    {
        if kinds[k].same_as(kind) {
            return true;
        }
        k = k + 1;
    }
    false
}

/// Whether an authorised request may still start: not when its parent was
/// cancelled, and not once its deadline has come (`now` at or after
/// `deadline_at`).
pub fn start_gate(cancelled: bool, now: UnixTime, deadline_at: UnixTime) -> (r: Result<(), GatewayError>)
    ensures
        cancelled ==> (r matches Err(e) && plain_error(e, GatewayErrorKind::Cancelled, "parent request was cancelled"@)),
        !cancelled && deadline_at.nanos <= now.nanos ==> (r matches Err(e) && plain_error(
            e,
            GatewayErrorKind::Timeout,
            "request deadline elapsed"@,
        )),
        !cancelled && now.nanos < deadline_at.nanos ==> r is Ok,
{
    if cancelled {
        return Err(GatewayError::new(GatewayErrorKind::Cancelled, "parent request was cancelled"));
    }
    if deadline_at.nanos <= now.nanos {
        return Err(GatewayError::new(GatewayErrorKind::Timeout, "request deadline elapsed"));
    }
    Ok(())
}

/// The view of an optional string.
pub open spec fn opt_text(value: Option<String>) -> Option<Seq<char>> {
    match value {
        Some(v) => Some(v@),
        None => None,
    }
}

/// The view of an optional borrowed string.
pub open spec fn opt_str(value: Option<&str>) -> Option<Seq<char>> {
    match value {
        Some(v) => Some(v@),
        None => None,
    }
}

/// How a request is recorded: the request kind and the plugin instance or
/// subagent it came from. A nested plugin's child model call and a model
/// call bound to a plugin name the initiating plugin instance; any other
/// request keeps what the provider observed of it.
pub open spec fn classification_of(
    nested_plugin: Option<Seq<char>>,
    bound_plugin: Option<Seq<char>>,
    observed: (Option<Seq<char>>, Option<Seq<char>>),
) -> (Option<Seq<char>>, Option<Seq<char>>) {
    match nested_plugin {
        Some(p) => (Some("plugin_child_model"@), Some(p)),
        None => match bound_plugin {
            Some(p) => (Some("plugin_bound_model"@), Some(p)),
            None => observed,
        },
    }
}

/// The request kind and subagent recorded for a request, from the plugin
/// instance that started it as a nested child call or as a bound call, else
/// from what the provider observed (`observed_kind`, `observed_subagent`).
pub fn request_classification(
    nested_plugin: Option<&str>,
    bound_plugin: Option<&str>,
    observed_kind: Option<String>,
    observed_subagent: Option<String>,
) -> (r: (Option<String>, Option<String>))
    ensures
        (opt_text(r.0), opt_text(r.1)) == classification_of(
            opt_str(nested_plugin),
            opt_str(bound_plugin),
            (opt_text(observed_kind), opt_text(observed_subagent)),
        ),
{
    match nested_plugin {
        Some(p) => (Some(String::from_str("plugin_child_model")), Some(String::from_str(p))),
        None => match bound_plugin {
            Some(p) => (Some(String::from_str("plugin_bound_model")), Some(String::from_str(p))),
            None => (observed_kind, observed_subagent),
        },
    }
}

/// A nested request that must use one provider may only name a provider of
/// its frozen account scope.
pub fn required_route_provider(required: Option<&ProviderKind>, scope_providers: &[ProviderKind]) -> (r: Result<
    Option<ProviderKind>,
    GatewayError,
>)
    ensures
        match required {
            None => r matches Ok(None),
            Some(p) => if kinds_contain(scope_providers@, p@) {
                r matches Ok(Some(q)) && q@ == p@
            } else {
                r matches Err(e) && plain_error(e, GatewayErrorKind::PolicyDenied, "nested provider is outside the frozen account scope"@)
            },
        },
{
    match required {
        None => Ok(None),
        Some(provider) => {
            if contains_kind(scope_providers, provider) {
                Ok(Some(provider.duplicate()))
            } else {
                Err(GatewayError::new(GatewayErrorKind::PolicyDenied, "nested provider is outside the frozen account scope"))
            }
        },
    }
}

/// Where a model request is planned after its routing policy.
#[derive(Debug, Clone, PartialEq, Eq)]
pub struct RouteTarget {
    pub model: PublicModelId,
    pub required_provider: Option<ProviderKind>,
}

/// Applies a routing policy's decision to a request for `model` that is
/// held to `required` and may use the providers of its scope. An unhandled
/// request keeps its target; a rejected one is denied; a route must name a
/// provider or a model, and a provider it names must be the required one, if
/// any, and lie in the scope.
pub fn apply_model_route(
    decision: &ModelRouteDecision,
    model: &PublicModelId,
    required: Option<&ProviderKind>,
    scope_providers: &[ProviderKind],
) -> (r: Result<RouteTarget, GatewayError>)
    ensures
        match *decision {
            ModelRouteDecision::Unhandled => r matches Ok(t) && t.model@ == model@ && kind_name(t.required_provider)
                == ref_kind_name(required),
            ModelRouteDecision::Reject => r matches Err(e) && plain_error(
                e,
                GatewayErrorKind::PolicyDenied,
                "model routing policy rejected the request"@,
            ),
            ModelRouteDecision::Route { provider, model: routed } => if provider is None && routed is None {
                r matches Err(e) && plain_error(e, GatewayErrorKind::Internal, "model routing policy returned an empty target"@)
            } else if provider matches Some(p) && ((required matches Some(q) && q@ != p@) || !kinds_contain(
                scope_providers@,
                p@,
            )) {
                r matches Err(e) && plain_error(
                    e,
                    GatewayErrorKind::PolicyDenied,
                    "model routing policy exceeded the frozen provider scope"@,
                )
            } else {
                r matches Ok(t) && t.model@ == (match routed {
                    Some(m) => m@,
                    None => model@,
                }) && kind_name(t.required_provider) == (match provider {
                    Some(p) => Some(p@),
                    None => ref_kind_name(required),
                })
            },
        },
{
    let kept = match required {
        Some(p) => Some(p.duplicate()),
        None => None,
    };
    match decision {
        ModelRouteDecision::Unhandled => Ok(RouteTarget { model: model.duplicate(), required_provider: kept }),
        ModelRouteDecision::Reject => Err(
            GatewayError::new(GatewayErrorKind::PolicyDenied, "model routing policy rejected the request"),
        ),
        ModelRouteDecision::Route { provider, model: routed } => {
            if provider.is_none() && routed.is_none() {
                return Err(
                    GatewayError::new(GatewayErrorKind::Internal, "model routing policy returned an empty target"),
                );
            }
            let required_provider = match provider {
                Some(p) => {
                    let outside = match required {
                        Some(q) => !q.same_as(p),
                        None => false,
                    } || !contains_kind(scope_providers, p);
                    if outside {
                        return Err(
                            GatewayError::new(
                                GatewayErrorKind::PolicyDenied,
                                "model routing policy exceeded the frozen provider scope",
                            ),
                        );
                    }
                    Some(p.duplicate())
                },
                None => kept,
            };
            let target_model = match routed {
                Some(m) => m.duplicate(),
                None => model.duplicate(),
            };
            Ok(RouteTarget { model: target_model, required_provider })
        },
    }
}

/// Binds a request's previous response from the continuation lookup. An
/// unavailable store, or no record, leaves an external continuation with the
/// client's handle; a record of another key is denied and any other store
/// failure is internal. A record must belong to the client key, its account
/// must lie in the client's account scope, and its provider must be among
/// the planned providers.
pub fn bind_continuation(
    lookup: Result<Option<NativeContinuationPin>, NativeContinuationStoreErrorKind>,
    previous: &PreviousResponseId,
    client: &ClientApiKeyId,
    scope: &AccountScope,
    plan_providers: &[ProviderKind],
) -> (r: Result<ContinuationBinding, GatewayError>)
    ensures
        match lookup {
            Err(NativeContinuationStoreErrorKind::Unavailable) | Ok(None) => r matches Ok(
                ContinuationBinding::External(id),
            ) && id@ == previous@,
            Err(NativeContinuationStoreErrorKind::OwnershipMismatch) => r matches Err(e) && plain_error(
                e,
                GatewayErrorKind::PolicyDenied,
                "continuation does not belong to this client API key"@,
            ),
            Err(NativeContinuationStoreErrorKind::InvalidData) => r matches Err(e) && plain_error(
                e,
                GatewayErrorKind::Internal,
                "continuation state is invalid"@,
            ),
            Ok(Some(pin)) => if pin.spec_client_api_key_id()@ != client@ {
                r matches Err(e) && plain_error(
                    e,
                    GatewayErrorKind::PolicyDenied,
                    "continuation does not belong to this client API key"@,
                )
            } else if !ids_contain(scope.allowed@, pin.spec_account()@) {
                r matches Err(e) && plain_error(
                    e,
                    GatewayErrorKind::PolicyDenied,
                    "continuation account is outside the client account scope"@,
                )
            } else if !kinds_contain(plan_providers@, pin.spec_provider()@) {
                r matches Err(e) && plain_error(
                    e,
                    GatewayErrorKind::NoAvailableProvider,
                    "continuation provider is not available"@,
                )
            } else {
                r == Ok::<ContinuationBinding, GatewayError>(ContinuationBinding::Pinned(pin))
            },
        },
{
    match lookup {
        Err(NativeContinuationStoreErrorKind::Unavailable) | Ok(None) => Ok(
            ContinuationBinding::External(previous.duplicate()),
        ),
        Err(NativeContinuationStoreErrorKind::OwnershipMismatch) => Err(
            GatewayError::new(GatewayErrorKind::PolicyDenied, "continuation does not belong to this client API key"),
        ),
        Err(NativeContinuationStoreErrorKind::InvalidData) => Err(
            GatewayError::new(GatewayErrorKind::Internal, "continuation state is invalid"),
        ),
        Ok(Some(pin)) => {
            if !pin.matches_client(client) {
                return Err(
                    GatewayError::new(GatewayErrorKind::PolicyDenied, "continuation does not belong to this client API key"),
                );
            }
            if !scope.allows(pin.account()) {
                return Err(
                    GatewayError::new(
                        GatewayErrorKind::PolicyDenied,
                        "continuation account is outside the client account scope",
                    ),
                );
            }
            if !contains_kind(plan_providers, pin.provider()) {
                return Err(
                    GatewayError::new(GatewayErrorKind::NoAvailableProvider, "continuation provider is not available"),
                );
            }
            Ok(ContinuationBinding::Pinned(pin))
        },
    }
}


/// The client-facing error of an execution failure: a cancellation or an
/// elapsed deadline as such, a provider failure normalised, no candidate or
/// no registered provider as no available provider, anything else internal.
pub fn gateway_error_from_engine(error: &EngineError) -> (r: GatewayError)
    ensures
        match *error {
            EngineError::Cancelled => plain_error(r, GatewayErrorKind::Cancelled, "request was cancelled"@),
            EngineError::Deadline => plain_error(r, GatewayErrorKind::Timeout, "request deadline elapsed"@),
            EngineError::Provider(p) => {
                &&& r.spec_kind() == gateway_kind_for(p.spec_kind())
                &&& r.spec_message() == gateway_message_for(p.spec_kind())
                &&& r.spec_diagnostic() == p.spec_diagnostic()
                &&& r.spec_client_visible_upstream_error() == p.spec_client_visible_upstream_error()
            },
            EngineError::EmptyRoutingPlan | EngineError::ProviderNotRegistered { .. } => plain_error(
                r,
                GatewayErrorKind::NoAvailableProvider,
                "no provider is available"@,
            ),
            _ => plain_error(r, GatewayErrorKind::Internal, "request execution failed"@),
        },
{
    match error {
        EngineError::Cancelled => GatewayError::new(GatewayErrorKind::Cancelled, "request was cancelled"),
        EngineError::Deadline => GatewayError::new(GatewayErrorKind::Timeout, "request deadline elapsed"),
        EngineError::Provider(provider) => GatewayError::from_provider(provider),
        EngineError::EmptyRoutingPlan | EngineError::ProviderNotRegistered { .. } => GatewayError::new(
            GatewayErrorKind::NoAvailableProvider,
            "no provider is available",
        ),
        _ => GatewayError::new(GatewayErrorKind::Internal, "request execution failed"),
    }
}


/// Compares two secrets in time that depends only on their length: every
/// byte pair is visited, and the differences are folded with `|` and `^`.
pub fn constant_time_equal(left: &str, right: &str) -> (r: bool)
    ensures
        r == (left@ == right@),
{
    let a = left.as_bytes();
    let b = right.as_bytes();
    if a.len() != b.len() {
        proof {
            if left@ == right@ {
                assert(a@ == b@);
            }
        }
        return false;
    }
    let mut difference: u8 = 0;
    let mut i: usize = 0;
    assert(a@.take(0) =~= b@.take(0));
    while i < a.len()
        invariant
            i <= a@.len(),
            a@.len() == b@.len(),
            (difference == 0) == (a@.take(i as int) == b@.take(i as int)),
        decreases a@.len() - i,
    {
        let x = a[i];
        let y = b[i];
        let d = difference;
        assert((d | (x ^ y)) == 0 <==> (d == 0 && x == y)) by (bit_vector);
        proof {
            if d == 0 && x == y {
                assert(a@.take(i + 1) =~= a@.take(i as int).push(x));
                assert(b@.take(i + 1) =~= b@.take(i as int).push(y));
            } else if a@.take(i + 1) == b@.take(i + 1) {
                assert(a@.take(i + 1)[i as int] == b@.take(i + 1)[i as int]);
                assert(a@.take(i as int) =~= a@.take(i + 1).take(i as int));
                assert(b@.take(i as int) =~= b@.take(i + 1).take(i as int));
            }
        }
        difference = d | (x ^ y);
        i = i + 1;
    }
    proof {
        assert(a@.take(a@.len() as int) =~= a@);
        assert(b@.take(b@.len() as int) =~= b@);
        if a@ == b@ {
            crate::text::lemma_encode_injective(left@, right@);
        }
    }
    difference == 0
}

/// The client policy a presented key authenticates: the first whose key
/// equals it and which is enabled.
pub open spec fn authenticated_policy_index(policies: Seq<ClientPolicy>, plaintext: Seq<char>) -> Option<int> {
    if exists|i: int| 0 <= i < policies.len() && #[trigger] policies[i].spec_plaintext_key()@ == plaintext
        && policies[i].spec_enabled() {
        Some(
            choose|i: int|
                0 <= i < policies.len() && #[trigger] policies[i].spec_plaintext_key()@ == plaintext
                    && policies[i].spec_enabled() && forall|j: int|
                    0 <= j < i ==> !(#[trigger] policies[j].spec_plaintext_key()@ == plaintext
                        && policies[j].spec_enabled()),
        )
    } else {
        None
    }
}

/// Finds the policy of a presented client key: among the policies whose key
/// equals it, compared in constant time, the first that is enabled.
pub fn authenticated_policy<'a>(policies: &'a [ClientPolicy], plaintext: &str) -> (r: Option<&'a ClientPolicy>)
    ensures
        match authenticated_policy_index(policies@, plaintext@) {
            Some(i) => r matches Some(p) && *p == policies@[i],
            None => r is None,
        },
{
    let mut i: usize = 0;
    while i < policies.len()
        invariant
            i <= policies@.len(),
            forall|j: int|
                0 <= j < i ==> !(#[trigger] policies@[j].spec_plaintext_key()@ == plaintext@
                    && policies@[j].spec_enabled()),
        decreases policies@.len() - i,
    {
        let policy = &policies[i];
        if constant_time_equal(plaintext, policy.plaintext_key().expose_for_auth()) && policy.authorize().is_ok() {
            proof {
                let k = choose|k: int|
                    0 <= k < policies@.len() && #[trigger] policies@[k].spec_plaintext_key()@ == plaintext@
                        && policies@[k].spec_enabled() && forall|j: int|
                        0 <= j < k ==> !(#[trigger] policies@[j].spec_plaintext_key()@ == plaintext@
                            && policies@[j].spec_enabled());
                if k < i {
                } else if k > i {
                    assert(!(policies@[i as int].spec_plaintext_key()@ == plaintext@ && policies@[i as int].spec_enabled()));
                }
            }
            return Some(policy);
        }
        i = i + 1;
    }
    None
}


/// At most this many nested model executions of one request run at once.
pub const MAX_CONCURRENT_NESTED_EXECUTIONS: usize = 4;

/// At most this many nested model executions start within one request.
pub const MAX_NESTED_EXECUTIONS: usize = 16;

/// Why a nested model execution may not start.
#[derive(Debug, Clone, Copy, PartialEq, Eq, Structural)]
pub enum NestedExecutionRejection {
    /// As many nested executions as allowed are running.
    ConcurrencyExhausted,
    /// The request started as many nested executions as it may.
    BudgetExhausted,
}

impl NestedExecutionRejection {
    /// The gateway error a refused nested execution is reported with.
    pub fn gateway_error(self) -> (r: GatewayError)
        ensures
            match self {
                NestedExecutionRejection::ConcurrencyExhausted => plain_error(
                    r,
                    GatewayErrorKind::ConcurrencyQueueFull,
                    "nested model execution concurrency is exhausted"@,
                ),
                NestedExecutionRejection::BudgetExhausted => plain_error(
                    r,
                    GatewayErrorKind::PolicyDenied,
                    "nested model execution budget is exhausted"@,
                ),
            },
    {
        match self {
            NestedExecutionRejection::ConcurrencyExhausted => GatewayError::new(
                GatewayErrorKind::ConcurrencyQueueFull,
                "nested model execution concurrency is exhausted",
            ),
            NestedExecutionRejection::BudgetExhausted => GatewayError::new(
                GatewayErrorKind::PolicyDenied,
                "nested model execution budget is exhausted",
            ),
        }
    }
}

/// The right to run one nested model execution; it is neither copied nor
/// cloned, and giving it back to its graph ends the execution.
pub struct NestedExecutionPermit {
    id: usize,
}

impl NestedExecutionPermit {
    /// The start this permit was issued for, unique within its graph.
    pub closed spec fn spec_id(&self) -> nat {
        self.id as nat
    }
}

/// The nested model executions of one request: how many started, and the
/// permits of those still running.
pub struct NestedExecutionGraph {
    total_started: usize,
    outstanding: Vec<usize>,
}

/// The permit ids held in `ids`.
pub open spec fn id_set(ids: Seq<usize>) -> Set<nat> {
    Set::new(|n: nat| exists|k: int| 0 <= k < ids.len() && ids[k] as nat == n)
}

fn ids_with(ids: &Vec<usize>, id: usize) -> (r: Vec<usize>)
    ensures
        r@ == ids@.push(id),
{
    let mut r: Vec<usize> = Vec::new();
    let mut i: usize = 0;
    while i < ids.len()
        invariant
            i <= ids@.len(),
            r@ == ids@.take(i as int),
        decreases ids@.len() - i,
    {
        r.push(ids[i]);
        i = i + 1;
        assert(r@ =~= ids@.take(i as int));
    }
    r.push(id);
    assert(r@ =~= ids@.push(id));
    r
}

fn ids_without(ids: &Vec<usize>, k: usize) -> (r: Vec<usize>)
    requires
        k < ids@.len(),
    ensures
        r@ == ids@.remove(k as int),
{
    let mut r: Vec<usize> = Vec::new();
    let mut i: usize = 0;
    while i < ids.len()
        invariant
            i <= ids@.len(),
            k < ids@.len(),
            r@ == (if i <= k { ids@.take(i as int) } else { ids@.take(i as int).remove(k as int) }),
        decreases ids@.len() - i,
    {
        if i != k {
            r.push(ids[i]);
        }
        i = i + 1;
        assert(r@ =~= (if i <= k { ids@.take(i as int) } else { ids@.take(i as int).remove(k as int) }));
    }
    assert(ids@.take(ids@.len() as int) =~= ids@);
    r
}

/// `ids` holds each permit once.
pub open spec fn distinct_ids(ids: Seq<usize>) -> bool {
    forall|a: int, b: int| 0 <= a < b < ids.len() ==> ids[a] != ids[b]
}

impl NestedExecutionGraph {
    /// Never more running than four nor more started than sixteen; each
    /// running execution holds a distinct permit issued by an earlier start.
    #[verifier::type_invariant]
    spec fn within_limits(&self) -> bool {
        &&& self.outstanding@.len() <= MAX_CONCURRENT_NESTED_EXECUTIONS
        &&& self.total_started <= MAX_NESTED_EXECUTIONS
        &&& distinct_ids(self.outstanding@)
        &&& forall|k: int| 0 <= k < self.outstanding@.len() ==> #[trigger] self.outstanding@[k] < self.total_started
    }

    pub closed spec fn spec_total_started(&self) -> nat {
        self.total_started as nat
    }

    /// The ids of the permits not yet given back.
    pub closed spec fn spec_outstanding(&self) -> Set<nat> {
        id_set(self.outstanding@)
    }

    /// How many nested executions run: the permits not yet given back.
    pub closed spec fn spec_active(&self) -> nat {
        self.outstanding@.len()
    }

    /// No nested execution has started.
    pub fn new() -> (r: NestedExecutionGraph)
        ensures
            r.spec_total_started() == 0,
            r.spec_active() == 0,
            r.spec_outstanding() == Set::<nat>::empty(),
    {
        let r = NestedExecutionGraph { total_started: 0, outstanding: Vec::new() };
        assert(id_set(r.outstanding@) =~= Set::<nat>::empty());
        r
    }

    pub fn active(&self) -> (r: usize)
        ensures
            r == self.spec_active(),
            r <= MAX_CONCURRENT_NESTED_EXECUTIONS,
    {
        proof {
            use_type_invariant(self);
        }
        self.outstanding.len()
    }

    pub fn total_started(&self) -> (r: usize)
        ensures
            r == self.spec_total_started(),
            r <= MAX_NESTED_EXECUTIONS,
    {
        proof {
            use_type_invariant(self);
        }
        self.total_started
    }

    /// Starts one nested execution: refused while four run, then once
    /// sixteen started; otherwise it counts as started and running, and its
    /// permit is returned.
    pub fn acquire(&mut self) -> (r: Result<NestedExecutionPermit, NestedExecutionRejection>)
        ensures
            old(self).spec_active() >= MAX_CONCURRENT_NESTED_EXECUTIONS ==> r matches Err(
                NestedExecutionRejection::ConcurrencyExhausted,
            ),
            old(self).spec_active() < MAX_CONCURRENT_NESTED_EXECUTIONS && old(self).spec_total_started()
                >= MAX_NESTED_EXECUTIONS ==> r matches Err(NestedExecutionRejection::BudgetExhausted),
            r is Ok <==> (old(self).spec_active() < MAX_CONCURRENT_NESTED_EXECUTIONS && old(self).spec_total_started()
                < MAX_NESTED_EXECUTIONS),
            r matches Ok(p) ==> {
                &&& final(self).spec_active() == old(self).spec_active() + 1
                &&& final(self).spec_total_started() == old(self).spec_total_started() + 1
                &&& !old(self).spec_outstanding().contains(p.spec_id())
                &&& final(self).spec_outstanding() == old(self).spec_outstanding().insert(p.spec_id())
            },
            r is Err ==> final(self).spec_active() == old(self).spec_active() && final(self).spec_total_started()
                == old(self).spec_total_started() && final(self).spec_outstanding() == old(self).spec_outstanding(),
    {
        proof {
            use_type_invariant(&*self);
        }
        if self.outstanding.len() >= MAX_CONCURRENT_NESTED_EXECUTIONS {
            return Err(NestedExecutionRejection::ConcurrencyExhausted);
        }
        if self.total_started >= MAX_NESTED_EXECUTIONS {
            return Err(NestedExecutionRejection::BudgetExhausted);
        }
        let id = self.total_started;
        let ghost before = self.outstanding@;
        let outstanding = ids_with(&self.outstanding, id);
        proof {
            let after = outstanding@;
            assert(after == before.push(id));
            assert forall|k: int| 0 <= k < before.len() implies before[k] != id by {
                assert(before[k] < id);
            }
            assert forall|n: nat| #[trigger] id_set(after).contains(n) <==> id_set(before).insert(id as nat).contains(n) by {
                if id_set(after).contains(n) {
                    let k = choose|k: int| 0 <= k < after.len() && after[k] as nat == n;
                    if k < before.len() {
                        assert(before[k] == after[k]);
                    }
                }
                if id_set(before).contains(n) {
                    let k = choose|k: int| 0 <= k < before.len() && before[k] as nat == n;
                    assert(after[k] == before[k]);
                }
                if n == id as nat {
                    assert(after[before.len() as int] == id);
                }
            }
            assert(id_set(after) =~= id_set(before).insert(id as nat));
            assert(!id_set(before).contains(id as nat));
            assert forall|a: int, b: int| 0 <= a < b < after.len() implies after[a] != after[b] by {
                if b < before.len() {
                    assert(after[a] == before[a] && after[b] == before[b]);
                } else {
                    assert(after[a] == before[a]);
                }
            }
            assert forall|k: int| 0 <= k < after.len() implies #[trigger] after[k] < id + 1 by {
                if k < before.len() {
                    assert(after[k] == before[k]);
                }
            }
        }
        *self = NestedExecutionGraph { total_started: id + 1, outstanding };
        Ok(NestedExecutionPermit { id })
    }

    /// Gives a permit back: a permit whose start this graph still counts as
    /// running ends that execution, once, since the permit is consumed; any
    /// other permit changes nothing. Permits are told apart by their start,
    /// so a permit is meant for the graph that issued it.
    pub fn release(&mut self, permit: NestedExecutionPermit) -> (r: bool)
        ensures
            r == old(self).spec_outstanding().contains(permit.spec_id()),
            r ==> final(self).spec_active() == old(self).spec_active() - 1 && final(self).spec_outstanding()
                == old(self).spec_outstanding().remove(permit.spec_id()),
            !r ==> final(self).spec_active() == old(self).spec_active() && final(self).spec_outstanding()
                == old(self).spec_outstanding(),
            final(self).spec_total_started() == old(self).spec_total_started(),
    {
        proof {
            use_type_invariant(&*self);
        }
        let ghost before = self.outstanding@;
        let mut k: usize = 0;
        while k < self.outstanding.len()
            invariant
                *self == *old(self),
                before == self.outstanding@,
                distinct_ids(before),
                before.len() <= MAX_CONCURRENT_NESTED_EXECUTIONS,
                self.total_started <= MAX_NESTED_EXECUTIONS,
                forall|j: int| 0 <= j < before.len() ==> #[trigger] before[j] < self.total_started,
                k <= before.len(),
                forall|j: int| 0 <= j < k ==> before[j] != permit.id,
            decreases before.len() - k,
        {
            if self.outstanding[k] == permit.id {
                let outstanding = ids_without(&self.outstanding, k);
                proof {
                    let after = outstanding@;
                    assert(after == before.remove(k as int));
                    assert forall|n: nat| #[trigger] id_set(after).contains(n) <==> id_set(before).remove(
                        permit.id as nat,
                    ).contains(n) by {
                        if id_set(after).contains(n) {
                            let j = choose|j: int| 0 <= j < after.len() && after[j] as nat == n;
                            if j < k {
                                assert(after[j] == before[j]);
                                assert(before[j] != before[k as int]);
                            } else {
                                assert(after[j] == before[j + 1]);
                                assert(before[j + 1] != before[k as int]);
                            }
                        }
                        if id_set(before).remove(permit.id as nat).contains(n) {
                            let j = choose|j: int| 0 <= j < before.len() && before[j] as nat == n;
                            assert(j != k);
                            if j < k {
                                assert(after[j] == before[j]);
                            } else {
                                assert(after[j - 1] == before[j]);
                            }
                        }
                    }
                    assert(id_set(after) =~= id_set(before).remove(permit.id as nat));
                    assert(id_set(before).contains(permit.id as nat)) by {
                        assert(before[k as int] as nat == permit.id as nat);
                    }
                    assert forall|a: int, b: int| 0 <= a < b < after.len() implies after[a] != after[b] by {
                        let a2 = if a < k { a } else { a + 1 };
                        let b2 = if b < k { b } else { b + 1 };
                        assert(after[a] == before[a2] && after[b] == before[b2]);
                    }
                    assert forall|j: int| 0 <= j < after.len() implies #[trigger] after[j] < self.total_started by {
                        if j < k {
                            assert(after[j] == before[j]);
                        } else {
                            assert(after[j] == before[j + 1]);
                        }
                    }
                }
                *self = NestedExecutionGraph { total_started: self.total_started, outstanding };
                return true;
            }
            k = k + 1;
        }
        proof {
            assert(!id_set(before).contains(permit.id as nat)) by {
                if id_set(before).contains(permit.id as nat) {
                    let j = choose|j: int| 0 <= j < before.len() && before[j] as nat == permit.id as nat;
                    assert(before[j] == permit.id);
                }
            }
        }
        false
    }
}

} // verus!
