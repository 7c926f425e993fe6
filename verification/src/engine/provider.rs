//! Facts at the native provider execution boundary: the selection
//! observation, which failures count against an account, and the limits on
//! headers an attempt middleware may forward.

use vstd::prelude::*;
use vstd::string::StringSliceAdditionalSpecFns;
use vstd::utf8::encode_utf8;

use crate::credential::selection::AccountCapacitySnapshot;
use crate::engine::middleware::{MiddlewareError, MiddlewareHeader};
use crate::engine::UpstreamSendState;
use crate::error::{PreDeliveryRetry, ProviderError, ProviderErrorKind};
use crate::text::bytes_equal;

verus! {

/// The neutral pressure facts of a provider's account selection.
#[derive(Debug, Clone, Copy, PartialEq, Eq, Structural)]
pub struct ProviderSelectionObservation {
    account_selection_wait_ms: u64,
    capacity: Option<AccountCapacitySnapshot>,
}

impl ProviderSelectionObservation {
    pub closed spec fn spec_account_selection_wait_ms(self) -> u64 {
        self.account_selection_wait_ms
    }

    pub closed spec fn spec_capacity(self) -> Option<AccountCapacitySnapshot> {
        self.capacity
    }

    pub fn new(account_selection_wait_ms: u64, capacity: Option<AccountCapacitySnapshot>) -> (r: ProviderSelectionObservation)
        ensures
            r.spec_account_selection_wait_ms() == account_selection_wait_ms,
            r.spec_capacity() == capacity,
    {
        ProviderSelectionObservation { account_selection_wait_ms, capacity }
    }

    pub fn account_selection_wait_ms(self) -> (r: u64)
        ensures
            r == self.spec_account_selection_wait_ms(),
    {
        self.account_selection_wait_ms
    }

    pub fn capacity(self) -> (r: Option<AccountCapacitySnapshot>)
        ensures
            r == self.spec_capacity(),
    {
        self.capacity
    }
}

/// A failure that may be held against the account: the payload was surely
/// sent, it was neither a cancellation nor a process termination, the
/// provider asked for no same-account transport recovery and no
/// same-account replay, and the provider's own filter accepts it.
pub open spec fn failure_counts_against_account(
    send_state: UpstreamSendState,
    kind: ProviderErrorKind,
    pre_delivery_retry: Option<PreDeliveryRetry>,
    retries_same_account: bool,
    provider_accepts: bool,
) -> bool {
    &&& send_state == UpstreamSendState::Sent
    &&& kind != ProviderErrorKind::Cancelled
    &&& kind != ProviderErrorKind::ProcessTerminated
    &&& !(pre_delivery_retry matches Some(PreDeliveryRetry::SameAccountTransportRetry { .. }))
    &&& !(pre_delivery_retry matches Some(PreDeliveryRetry::SameAccountTransportFallback))
    &&& !retries_same_account
    &&& provider_accepts
}

/// What account feedback a failure gives: a cancelled request, a terminated
/// process, a payload that was not surely sent, a failure the provider
/// recovers on the same account, and one its filter refuses are never held
/// against the account; any other failure is.
pub proof fn lemma_failure_feedback(
    send_state: UpstreamSendState,
    kind: ProviderErrorKind,
    pre_delivery_retry: Option<PreDeliveryRetry>,
    retries_same_account: bool,
    provider_accepts: bool,
)
    ensures
        kind == ProviderErrorKind::Cancelled ==> !failure_counts_against_account(
            send_state,
            kind,
            pre_delivery_retry,
            retries_same_account,
            provider_accepts,
        ),
        kind == ProviderErrorKind::ProcessTerminated ==> !failure_counts_against_account(
            send_state,
            kind,
            pre_delivery_retry,
            retries_same_account,
            provider_accepts,
        ),
        send_state != UpstreamSendState::Sent ==> !failure_counts_against_account(
            send_state,
            kind,
            pre_delivery_retry,
            retries_same_account,
            provider_accepts,
        ),
        !provider_accepts ==> !failure_counts_against_account(
            send_state,
            kind,
            pre_delivery_retry,
            retries_same_account,
            provider_accepts,
        ),
        retries_same_account ==> !failure_counts_against_account(
            send_state,
            kind,
            pre_delivery_retry,
            retries_same_account,
            provider_accepts,
        ),
        pre_delivery_retry matches Some(PreDeliveryRetry::SameAccountTransportFallback) ==> !failure_counts_against_account(
            send_state,
            kind,
            pre_delivery_retry,
            retries_same_account,
            provider_accepts,
        ),
        pre_delivery_retry matches Some(PreDeliveryRetry::SameAccountTransportRetry { .. }) ==> !failure_counts_against_account(
            send_state,
            kind,
            pre_delivery_retry,
            retries_same_account,
            provider_accepts,
        ),
        (send_state == UpstreamSendState::Sent && kind != ProviderErrorKind::Cancelled && kind
            != ProviderErrorKind::ProcessTerminated && (pre_delivery_retry is None || pre_delivery_retry == Some(
            PreDeliveryRetry::AccountRotation,
        )) && !retries_same_account && provider_accepts) ==> failure_counts_against_account(
            send_state,
            kind,
            pre_delivery_retry,
            retries_same_account,
            provider_accepts,
        ),
{
}

/// Whether a stream failure is reported as account feedback; an ambiguous
/// send still closes the replay boundary but proves nothing about the
/// account. `provider_accepts` is the answer of the provider's failure filter.
pub fn failure_counts_for_account(error: &ProviderError, provider_accepts: bool) -> (r: bool)
    ensures
        r == failure_counts_against_account(
            error.spec_send_state(),
            error.spec_kind(),
            error.spec_pre_delivery_retry(),
            error.spec_retry_same_account(),
            provider_accepts,
        ),
        error.spec_kind() == ProviderErrorKind::Cancelled ==> !r,
        error.spec_kind() == ProviderErrorKind::ProcessTerminated ==> !r,
        error.spec_send_state() != UpstreamSendState::Sent ==> !r,
        !provider_accepts ==> !r,
{
    let sent = match error.send_state() {
        UpstreamSendState::Sent => true,
        _ => false,
    };
    let terminal_kind = match error.kind() {
        ProviderErrorKind::Cancelled => true,
        ProviderErrorKind::ProcessTerminated => true,
        _ => false,
    };
    let same_account_transport = match error.pre_delivery_retry() {
        Some(PreDeliveryRetry::SameAccountTransportRetry { .. }) => true,
        Some(PreDeliveryRetry::SameAccountTransportFallback) => true,
        _ => false,
    };
    sent && !terminal_kind && !same_account_transport && !error.retries_same_account() && provider_accepts
}

pub const MAX_ATTEMPT_HEADERS: usize = 128;

pub const MAX_ATTEMPT_HEADER_NAME_BYTES: usize = 128;

pub const MAX_ATTEMPT_HEADER_VALUE_BYTES: usize = 16384;

pub const MAX_ATTEMPT_HEADER_TOTAL_BYTES: usize = 65536;

/// `p` occurs in `s` at some position.
pub open spec fn bytes_contain(s: Seq<u8>, p: Seq<u8>) -> bool {
    exists|i: int| 0 <= i && i + p.len() <= s.len() && #[trigger] s.subrange(i, i + p.len()) == p
}

pub open spec fn bytes_end_with(s: Seq<u8>, p: Seq<u8>) -> bool {
    p.len() <= s.len() && s.subrange(s.len() - p.len(), s.len() as int) == p
}

pub open spec fn bytes_start_with(s: Seq<u8>, p: Seq<u8>) -> bool {
    p.len() <= s.len() && s.subrange(0, p.len() as int) == p
}

fn match_at(s: &[u8], p: &[u8], i: usize) -> (r: bool)
    requires
        i + p@.len() <= s@.len(),
    ensures
        r == (s@.subrange(i as int, i + p@.len()) == p@),
{
    let n = s.len();
    let mut j: usize = 0;
    while j < p.len()
        invariant
            j <= p@.len(),
            n == s@.len(),
            i + p@.len() <= s@.len(),
            forall|k: int| 0 <= k < j ==> s@[i + k] == p@[k],
        decreases p@.len() - j,
    {
        assert(i + j < n);
        let idx: usize = i + j;
        if s[idx] != p[j] {
            assert(s@.subrange(i as int, i + p@.len())[j as int] != p@[j as int]);
            return false;
        }
        j = j + 1;
    }
    assert(s@.subrange(i as int, i + p@.len()) =~= p@);
    true
}

pub(crate) fn contains_bytes(s: &[u8], p: &[u8]) -> (r: bool)
    ensures
        r == bytes_contain(s@, p@),
{
    if p.len() > s.len() {
        return false;
    }
    if p.len() == 0 {
        assert(s@.subrange(0int, 0int + p@.len()) =~= p@);
        return true;
    }
    let end = s.len() - p.len() + 1;
    let mut i: usize = 0;
    while i < end
        invariant
            end + p@.len() == s@.len() + 1,
            i <= end,
            forall|k: int| 0 <= k < i ==> #[trigger] s@.subrange(k, k + p@.len()) != p@,
        decreases end - i,
    {
        if match_at(s, p, i) {
            return true;
        }
        i = i + 1;
    }
    false
}

pub(crate) fn ends_with_bytes(s: &[u8], p: &[u8]) -> (r: bool)
    ensures
        r == bytes_end_with(s@, p@),
{
    if p.len() > s.len() {
        return false;
    }
    match_at(s, p, s.len() - p.len())
}

fn starts_with_bytes(s: &[u8], p: &[u8]) -> (r: bool)
    ensures
        r == bytes_start_with(s@, p@),
{
    if p.len() > s.len() {
        return false;
    }
    match_at(s, p, 0)
}

/// The name fragments that mark a header as carrying identity, credentials
/// or session state.
pub open spec fn protected_fragment(n: Seq<u8>) -> bool {
    ||| bytes_contain(n, encode_utf8("auth"@))
    ||| bytes_contain(n, encode_utf8("credential"@))
    ||| bytes_contain(n, encode_utf8("secret"@))
    ||| bytes_contain(n, encode_utf8("token"@))
    ||| bytes_contain(n, encode_utf8("cookie"@))
    ||| bytes_contain(n, encode_utf8("session"@))
    ||| bytes_contain(n, encode_utf8("conversation"@))
    ||| bytes_contain(n, encode_utf8("thread"@))
    ||| bytes_contain(n, encode_utf8("account"@))
    ||| bytes_contain(n, encode_utf8("organization"@))
    ||| bytes_contain(n, encode_utf8("project"@))
    ||| bytes_contain(n, encode_utf8("tenant"@))
    ||| bytes_contain(n, encode_utf8("principal"@))
    ||| bytes_contain(n, encode_utf8("identity"@))
    ||| bytes_contain(n, encode_utf8("user-id"@))
    ||| bytes_end_with(n, encode_utf8("-key"@))
    ||| bytes_end_with(n, encode_utf8("_key"@))
    ||| bytes_start_with(n, encode_utf8("sec-websocket-"@))
}

/// Hop-by-hop, framing and gateway-owned header names.
pub open spec fn reserved_name(n: Seq<u8>) -> bool {
    ||| n == encode_utf8("connection"@)
    ||| n == encode_utf8("keep-alive"@)
    ||| n == encode_utf8("proxy-connection"@)
    ||| n == encode_utf8("proxy-authenticate"@)
    ||| n == encode_utf8("proxy-authorization"@)
    ||| n == encode_utf8("te"@)
    ||| n == encode_utf8("trailer"@)
    ||| n == encode_utf8("transfer-encoding"@)
    ||| n == encode_utf8("upgrade"@)
    ||| n == encode_utf8("host"@)
    ||| n == encode_utf8("content-length"@)
    ||| n == encode_utf8("content-type"@)
    ||| n == encode_utf8("content-encoding"@)
    ||| n == encode_utf8("accept"@)
    ||| n == encode_utf8("accept-encoding"@)
    ||| n == encode_utf8("user-agent"@)
    ||| n == encode_utf8("x-request-id"@)
    ||| n == encode_utf8("x-gateway-request-id"@)
}

/// A lower-cased header name that an attempt middleware may not set.
pub open spec fn attempt_header_protected(n: Seq<u8>) -> bool {
    protected_fragment(n) || reserved_name(n)
}

fn is_protected(n: &[u8]) -> (r: bool)
    ensures
        r == attempt_header_protected(n@),
{
    contains_bytes(n, "auth".as_bytes()) || contains_bytes(n, "credential".as_bytes())
        || contains_bytes(n, "secret".as_bytes()) || contains_bytes(n, "token".as_bytes())
        || contains_bytes(n, "cookie".as_bytes()) || contains_bytes(n, "session".as_bytes())
        || contains_bytes(n, "conversation".as_bytes()) || contains_bytes(n, "thread".as_bytes())
        || contains_bytes(n, "account".as_bytes()) || contains_bytes(n, "organization".as_bytes())
        || contains_bytes(n, "project".as_bytes()) || contains_bytes(n, "tenant".as_bytes())
        || contains_bytes(n, "principal".as_bytes()) || contains_bytes(n, "identity".as_bytes())
        || contains_bytes(n, "user-id".as_bytes()) || ends_with_bytes(n, "-key".as_bytes())
        || ends_with_bytes(n, "_key".as_bytes()) || starts_with_bytes(n, "sec-websocket-".as_bytes())
        || bytes_equal(n, "connection".as_bytes()) || bytes_equal(n, "keep-alive".as_bytes())
        || bytes_equal(n, "proxy-connection".as_bytes()) || bytes_equal(n, "proxy-authenticate".as_bytes())
        || bytes_equal(n, "proxy-authorization".as_bytes()) || bytes_equal(n, "te".as_bytes())
        || bytes_equal(n, "trailer".as_bytes()) || bytes_equal(n, "transfer-encoding".as_bytes())
        || bytes_equal(n, "upgrade".as_bytes()) || bytes_equal(n, "host".as_bytes())
        || bytes_equal(n, "content-length".as_bytes()) || bytes_equal(n, "content-type".as_bytes())
        || bytes_equal(n, "content-encoding".as_bytes()) || bytes_equal(n, "accept".as_bytes())
        || bytes_equal(n, "accept-encoding".as_bytes()) || bytes_equal(n, "user-agent".as_bytes())
        || bytes_equal(n, "x-request-id".as_bytes()) || bytes_equal(n, "x-gateway-request-id".as_bytes())
}

/// ASCII lower-casing of one byte.
pub open spec fn ascii_lower(b: u8) -> u8 {
    if 65 <= b <= 90 {
        (b + 32) as u8
    } else {
        b
    }
}

pub open spec fn lowercase_bytes(s: Seq<u8>) -> Seq<u8> {
    Seq::new(s.len(), |i: int| ascii_lower(s[i]))
}

/// An HTTP token character: an ASCII letter or digit, or one of ``!#$%&'*+-.^_`|~``.
pub open spec fn token_byte(b: u8) -> bool {
    ||| (48 <= b <= 57) || (65 <= b <= 90) || (97 <= b <= 122)
    ||| b == 33 || b == 35 || b == 36 || b == 37 || b == 38 || b == 39 || b == 42 || b == 43
    ||| b == 45 || b == 46 || b == 94 || b == 95 || b == 96 || b == 124 || b == 126
}

/// A header value byte: a tab, or a visible byte other than DEL.
pub open spec fn value_byte(b: u8) -> bool {
    b == 9 || (b >= 32 && b != 127)
}

/// One header an attempt middleware may forward.
pub open spec fn attempt_header_valid(name: Seq<u8>, value: Seq<u8>) -> bool {
    &&& 0 < name.len() <= MAX_ATTEMPT_HEADER_NAME_BYTES
    &&& forall|i: int| 0 <= i < name.len() ==> token_byte(#[trigger] name[i])
    &&& value.len() <= MAX_ATTEMPT_HEADER_VALUE_BYTES
    &&& forall|i: int| 0 <= i < value.len() ==> value_byte(#[trigger] value[i])
    &&& !attempt_header_protected(lowercase_bytes(name))
}

/// The summed byte length of the names and values of `hs`.
pub open spec fn attempt_headers_size(hs: Seq<MiddlewareHeader>) -> int
    decreases hs.len(),
{
    if hs.len() == 0 {
        0
    } else {
        attempt_headers_size(hs.drop_last()) + encode_utf8(hs.last().spec_name()).len() + hs.last().spec_value().len()
    }
}

/// At most 128 headers, each valid, of at most 64 KiB together.
pub open spec fn attempt_headers_valid(hs: Seq<MiddlewareHeader>) -> bool {
    &&& hs.len() <= MAX_ATTEMPT_HEADERS
    &&& forall|i: int| 0 <= i < hs.len() ==> attempt_header_valid(encode_utf8((#[trigger] hs[i]).spec_name()), hs[i].spec_value())
    &&& attempt_headers_size(hs) <= MAX_ATTEMPT_HEADER_TOTAL_BYTES
}

proof fn lemma_attempt_headers_size_monotonic(hs: Seq<MiddlewareHeader>, m: int, n: int)
    requires
        0 <= m <= n <= hs.len(),
    ensures
        attempt_headers_size(hs.take(m)) <= attempt_headers_size(hs.take(n)),
    decreases n - m,
{
    if m < n {
        lemma_attempt_headers_size_monotonic(hs, m, n - 1);
        assert(hs.take(n).drop_last() =~= hs.take(n - 1));
    }
}

fn token_byte_exec(b: u8) -> (r: bool)
    ensures
        r == token_byte(b),
{
    (48 <= b && b <= 57) || (65 <= b && b <= 90) || (97 <= b && b <= 122) || b == 33 || b == 35 || b == 36
        || b == 37 || b == 38 || b == 39 || b == 42 || b == 43 || b == 45 || b == 46 || b == 94 || b == 95
        || b == 96 || b == 124 || b == 126
}

fn ascii_lower_exec(b: u8) -> (r: u8)
    ensures
        r == ascii_lower(b),
{
    if 65 <= b && b <= 90 {
        b + 32
    } else {
        b
    }
}

fn header_valid(h: &MiddlewareHeader) -> (r: bool)
    ensures
        r == attempt_header_valid(encode_utf8(h.spec_name()), h.spec_value()),
{
    let name = h.name().as_bytes();
    let value = h.value();
    if name.len() == 0 || name.len() > MAX_ATTEMPT_HEADER_NAME_BYTES || value.len() > MAX_ATTEMPT_HEADER_VALUE_BYTES {
        return false;
    }
    let mut lowered: Vec<u8> = Vec::new();
    let mut i: usize = 0;
    while i < name.len()
        invariant
            i <= name@.len(),
            name@ == encode_utf8(h.spec_name()),
            lowered@.len() == i,
            forall|k: int| 0 <= k < i ==> token_byte(#[trigger] name@[k]),
            forall|k: int| 0 <= k < i ==> #[trigger] lowered@[k] == ascii_lower(name@[k]),
        decreases name@.len() - i,
    {
        let b = name[i];
        if !token_byte_exec(b) {
            assert(!token_byte(encode_utf8(h.spec_name())[i as int]));
            return false;
        }
        lowered.push(ascii_lower_exec(b));
        i = i + 1;
    }
    let mut j: usize = 0;
    while j < value.len()
        invariant
            j <= value@.len(),
            value@ == h.spec_value(),
            forall|k: int| 0 <= k < j ==> value_byte(#[trigger] value@[k]),
        decreases value@.len() - j,
    {
        let b = value[j];
        if !(b == 9 || (b >= 32 && b != 127)) {
            assert(!value_byte(h.spec_value()[j as int]));
            return false;
        }
        j = j + 1;
    }
    assert(lowered@ =~= lowercase_bytes(name@));
    !is_protected(lowered.as_slice())
}

/// Checks the headers an attempt middleware hands back before they reach a
/// provider: bounded in number and size, well-formed, and none of them
/// carrying identity, credentials, session state or transport framing.
pub fn validate_attempt_headers(headers: &[MiddlewareHeader]) -> (r: Result<(), MiddlewareError>)
    ensures
        r is Ok <==> attempt_headers_valid(headers@),
        r matches Err(e) ==> e is InvalidState,
{
    if headers.len() > MAX_ATTEMPT_HEADERS {
        return Err(MiddlewareError::InvalidState);
    }
    let mut total: usize = 0;
    let mut i: usize = 0;
    while i < headers.len()
        invariant
            i <= headers@.len() <= MAX_ATTEMPT_HEADERS,
            total == attempt_headers_size(headers@.take(i as int)),
            total <= MAX_ATTEMPT_HEADER_TOTAL_BYTES,
            forall|j: int| 0 <= j < i ==> attempt_header_valid(encode_utf8((#[trigger] headers@[j]).spec_name()), headers@[j].spec_value()),
        decreases headers@.len() - i,
    {
        let h = &headers[i];
        if !header_valid(h) {
            return Err(MiddlewareError::InvalidState);
        }
        assert(headers@.take(i as int + 1).drop_last() =~= headers@.take(i as int));
        let next = total + h.name().as_bytes().len() + h.value().len();
        if next > MAX_ATTEMPT_HEADER_TOTAL_BYTES {
            proof {
                lemma_attempt_headers_size_monotonic(headers@, i as int + 1, headers@.len() as int);
                assert(headers@.take(headers@.len() as int) =~= headers@);
            }
            return Err(MiddlewareError::InvalidState);
        }
        total = next;
        i = i + 1;
    }
    assert(headers@.take(i as int) =~= headers@);
    Ok(())
}

} // verus!
