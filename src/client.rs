//! The client side of one request: the return addresses that route the answer
//! back, the conversion of the inbound callback into a typed response, the
//! per-request decisions around the registry, and the routing of inbound
//! callbacks.

use crate::registry::{
    generate_callback_id, is_ascii_alphanumeric, CorrelationRegistry, RegistryView,
    CORRELATION_ID_LEN,
};
use crate::text::str_eq;
use crate::url_codec::{pairs_view, parsed_url};
use crate::x_callback_url::{
    is_reserved_key, CALLBACK_PARAM_KEY_CANCEL, CALLBACK_PARAM_KEY_ERROR,
    CALLBACK_PARAM_KEY_SOURCE, CALLBACK_PARAM_KEY_SUCCESS, has_callback_host, host_or_empty, opt_str_view, serialized, url_of_parts, CallbackParamsView, XCallbackError, XCallbackUrl,
    XCallbackUrlView,
};
use vstd::prelude::*;

verus! {

/// Scheme under which this client receives its callbacks.
pub const CALLBACK_SCHEME: &'static str = "callback";
/// What this client reports as `x-source`.
pub const CALLBACK_SOURCE: &'static str = "callback";
pub const CALLBACK_ACTION_SUCCESS: &'static str = "success";
pub const CALLBACK_ACTION_ERROR: &'static str = "error";
pub const CALLBACK_ACTION_CANCEL: &'static str = "cancel";
/// Action parameter that carries the correlation id on every return address.
pub const CALLBACK_PARAM_KEY_CALLBACK_ID: &'static str = "correlation_id";

/// How the called application ended the request.
#[derive(Debug, Clone, Copy, PartialEq, Eq, Structural)]
pub enum XCallbackStatus {
    Success,
    Error,
    Cancel,
}

/// The answer to one request: how it ended and the parameters returned.
#[derive(Debug, Clone)]
pub struct XCallbackResponse {
    pub status: XCallbackStatus,
    pub action_params: Vec<(String, String)>,
}

/// Something that runs one request to its answer.
pub trait XCallbackClient {
    fn execute(&self, url: &XCallbackUrl) -> Result<XCallbackResponse, XCallbackError>;
}

/// The return address for `action`, carrying the correlation id `id`.
pub open spec fn return_url_model(action: Seq<char>, id: Seq<char>) -> XCallbackUrlView {
    XCallbackUrlView {
        scheme: CALLBACK_SCHEME@,
        action,
        action_params: seq![(CALLBACK_PARAM_KEY_CALLBACK_ID@, id)],
        callback_params: CallbackParamsView { source: None, success: None, error: None, cancel: None },
    }
}

/// The outbound URL for a request with correlation id `id`: `u` with this
/// client as source and its three return addresses.
pub open spec fn request_model(u: XCallbackUrlView, id: Seq<char>) -> XCallbackUrlView {
    XCallbackUrlView {
        callback_params: CallbackParamsView {
            source: Some(CALLBACK_SOURCE@),
            success: Some(serialized(return_url_model(CALLBACK_ACTION_SUCCESS@, id))),
            error: Some(serialized(return_url_model(CALLBACK_ACTION_ERROR@, id))),
            cancel: Some(serialized(return_url_model(CALLBACK_ACTION_CANCEL@, id))),
        },
        ..u
    }
}

/// The returned parameters of a callback: its action parameters without the
/// correlation id, in order.
pub open spec fn stripped_params(q: Seq<(Seq<char>, Seq<char>)>) -> Seq<(Seq<char>, Seq<char>)> {
    q.filter(|p: (Seq<char>, Seq<char>)| p.0 != CALLBACK_PARAM_KEY_CALLBACK_ID@)
}

/// The status that a callback's action names, if any.
pub open spec fn status_of_action(action: Seq<char>) -> Option<XCallbackStatus> {
    if action == CALLBACK_ACTION_SUCCESS@ {
        Some(XCallbackStatus::Success)
    } else if action == CALLBACK_ACTION_ERROR@ {
        Some(XCallbackStatus::Error)
    } else if action == CALLBACK_ACTION_CANCEL@ {
        Some(XCallbackStatus::Cancel)
    } else {
        None
    }
}

/// What converting the callback `u` gives.
pub open spec fn response_result(u: XCallbackUrlView, r: Result<XCallbackResponse, XCallbackError>) -> bool {
    match status_of_action(u.action) {
        Some(st) => r matches Ok(resp) && resp.status == st && pairs_view(resp.action_params@)
            == stripped_params(u.action_params),
        None => r matches Err(XCallbackError::InvalidAction(a)) && a@ == u.action,
    }
}

/// The value of the first pair of `q` under `key`, if any.
pub open spec fn first_value_of(q: Seq<(Seq<char>, Seq<char>)>, key: Seq<char>) -> Option<Seq<char>>
    decreases q.len(),
{
    if q.len() == 0 {
        None
    } else if q[0].0 == key {
        Some(q[0].1)
    } else {
        first_value_of(q.drop_first(), key)
    }
}

/// The correlation key is not a reserved name.
proof fn lemma_id_key_unreserved()
    ensures
        !is_reserved_key(CALLBACK_PARAM_KEY_CALLBACK_ID@),
{
    reveal_strlit("correlation_id");
    reveal_strlit("x-source");
    reveal_strlit("x-success");
    reveal_strlit("x-error");
    reveal_strlit("x-cancel");
    assert(CALLBACK_PARAM_KEY_CALLBACK_ID@[0] != CALLBACK_PARAM_KEY_SOURCE@[0]);
    assert(CALLBACK_PARAM_KEY_CALLBACK_ID@[0] != CALLBACK_PARAM_KEY_SUCCESS@[0]);
    assert(CALLBACK_PARAM_KEY_CALLBACK_ID@[0] != CALLBACK_PARAM_KEY_ERROR@[0]);
    assert(CALLBACK_PARAM_KEY_CALLBACK_ID@[0] != CALLBACK_PARAM_KEY_CANCEL@[0]);
}

/// The return address for `action` as a string, carrying the correlation id.
pub fn generate_callback_url(action: &str, id: &str) -> (r: String)
    ensures
        r@ == serialized(return_url_model(action@, id@)),
{
    let mut url = XCallbackUrl::new(CALLBACK_SCHEME);
    url.set_action(action);
    proof {
        lemma_id_key_unreserved();
    }
    url.append_action_param(CALLBACK_PARAM_KEY_CALLBACK_ID, id);
    assert(url@ =~= return_url_model(action@, id@));
    url.to_string()
}

/// The outbound URL for a request with correlation id `id`: a copy of `url`
/// whose return addresses point back at this client.
pub fn request_url(url: &XCallbackUrl, id: &str) -> (r: XCallbackUrl)
    ensures
        r@ == request_model(url@, id@),
{
    let success = generate_callback_url(CALLBACK_ACTION_SUCCESS, id);
    let error = generate_callback_url(CALLBACK_ACTION_ERROR, id);
    let cancel = generate_callback_url(CALLBACK_ACTION_CANCEL, id);
    let mut r = url.duplicate();
    r.set_reserved(
        Some(CALLBACK_SOURCE),
        Some(success.as_str()),
        Some(error.as_str()),
        Some(cancel.as_str()),
    );
    r
}

/// Turns an inbound callback into a response: the action names the status,
/// and the action parameters other than the correlation id are returned in
/// order. Fails with `InvalidAction` on any other action.
pub fn callback_url_to_response(callback_url: &XCallbackUrl) -> (r: Result<XCallbackResponse, XCallbackError>)
    ensures
        response_result(callback_url@, r),
{
    let action = callback_url.action();
    let status = if str_eq(action, CALLBACK_ACTION_SUCCESS) {
        XCallbackStatus::Success
    } else if str_eq(action, CALLBACK_ACTION_ERROR) {
        XCallbackStatus::Error
    } else if str_eq(action, CALLBACK_ACTION_CANCEL) {
        XCallbackStatus::Cancel
    } else {
        return Err(XCallbackError::InvalidAction(action.to_string()));
    };
    let ghost q = callback_url@.action_params;
    let mut action_params: Vec<(String, String)> = Vec::new();
    let mut it = callback_url.action_params().iter();
    let ghost mut taken: int = 0;
    loop
        invariant
            it.wf(),
            0 <= taken <= q.len(),
            it@ == q.skip(taken),
            pairs_view(action_params@) == stripped_params(q.take(taken)),
        ensures
            taken == q.len(),
            pairs_view(action_params@) == stripped_params(q.take(taken)),
        decreases it@.len(),
    {
        match it.next() {
            None => {
                break;
            },
            Some((k, v)) => {
                proof {
                    assert(q.take(taken + 1).drop_last() =~= q.take(taken));
                    assert(q.take(taken + 1).last() == (k@, v@));
                    assert(q.skip(taken).drop_first() =~= q.skip(taken + 1));
                    reveal_with_fuel(Seq::filter, 1);
                }
                if !str_eq(k, CALLBACK_PARAM_KEY_CALLBACK_ID) {
                    let ghost before = action_params@;
                    action_params.push((k.to_string(), v.to_string()));
                    assert(pairs_view(action_params@) =~= pairs_view(before).push((k@, v@)));
                }
                proof {
                    taken = taken + 1;
                }
            },
        }
    }
    assert(q.take(taken) =~= q);
    Ok(XCallbackResponse { status, action_params })
}


/// A request that was registered and is ready to be sent: its correlation id
/// and the outbound URL string to open.
pub struct PendingRequest {
    pub id: String,
    pub outbound: String,
}

/// Registers a request under the correlation id `id` and builds its outbound
/// URL. Fails with `DuplicateId`, changing nothing, where a request is
/// already pending under `id`.
pub fn start_request(registry: &mut CorrelationRegistry, url: &XCallbackUrl, id: &str) -> (r: Result<
    String,
    XCallbackError,
>)
    requires
        old(registry).wf(),
    ensures
        final(registry).wf(),
        old(registry)@.entries.contains_key(id@) ==> (r matches Err(XCallbackError::DuplicateId(d))
            && d@ == id@ && final(registry)@ == old(registry)@),
        !old(registry)@.entries.contains_key(id@) ==> (r matches Ok(s) && s@ == serialized(
            request_model(url@, id@),
        ) && final(registry)@ == (RegistryView {
            entries: old(registry)@.entries.insert(id@, None),
            ..old(registry)@
        })),
{
    match registry.register(id) {
        Err(e) => Err(e),
        Ok(()) => Ok(request_url(url, id).to_string()),
    }
}

/// How many ids `begin_request` draws before it gives up.
pub const ID_ATTEMPTS: usize = 4;

/// Starts a request: draws a fresh correlation id, registers it and builds
/// the outbound URL. A drawn id that is already pending is drawn again, up to
/// `ID_ATTEMPTS` times; after that it fails with `DuplicateId` for the last
/// drawn id, changing nothing. In particular, on a registry with no pending
/// request it succeeds.
pub fn begin_request(registry: &mut CorrelationRegistry, url: &XCallbackUrl) -> (r: Result<
    PendingRequest,
    XCallbackError,
>)
    requires
        old(registry).wf(),
    ensures
        final(registry).wf(),
        r matches Ok(p) ==> p.id@.len() == CORRELATION_ID_LEN && (forall|i: int|
            0 <= i < p.id@.len() ==> is_ascii_alphanumeric(#[trigger] p.id@[i]))
            && !old(registry)@.entries.contains_key(p.id@) && p.outbound@ == serialized(
            request_model(url@, p.id@),
        ) && final(registry)@ == (RegistryView {
            entries: old(registry)@.entries.insert(p.id@, None),
            ..old(registry)@
        }),
        r matches Err(e) ==> (e matches XCallbackError::DuplicateId(d) && d@.len()
            == CORRELATION_ID_LEN && old(registry)@.entries.contains_key(d@) && final(registry)@
            == old(registry)@),
{
    let mut attempt: usize = 0;
    loop
        invariant
            registry.wf(),
            registry@ == old(registry)@,
            attempt < ID_ATTEMPTS,
        decreases ID_ATTEMPTS - attempt,
    {
        let id = generate_callback_id();
        match start_request(registry, url, id.as_str()) {
            Ok(outbound) => {
                return Ok(PendingRequest { id, outbound });
            },
            Err(e) => {
                attempt = attempt + 1;
                if attempt == ID_ATTEMPTS {
                    return Err(e);
                }
            },
        }
    }
}

/// Where a waiting request stands.
pub enum RequestPoll {
    /// No callback yet; keep waiting.
    Pending,
    /// The request is over, with its answer or its failure.
    Finished(Result<XCallbackResponse, XCallbackError>),
}

/// What one look at the request under `id` does: from registry `old_v` to
/// `new_v`, with result `r`.
pub open spec fn polled(old_v: RegistryView, id: Seq<char>, r: RequestPoll, new_v: RegistryView) -> bool {
    if !old_v.entries.contains_key(id) {
        r matches RequestPoll::Finished(Err(XCallbackError::RoutingMiss(d))) && d@ == id && new_v
            == old_v
    } else if let Some(u) = old_v.entries[id] {
        (r matches RequestPoll::Finished(res) && response_result(u, res)) && new_v == (RegistryView {
            entries: old_v.entries.remove(id),
            ..old_v
        })
    } else if old_v.closed {
        r matches RequestPoll::Finished(Err(XCallbackError::TransportClosed)) && new_v == (
        RegistryView { entries: old_v.entries.remove(id), ..old_v })
    } else {
        r is Pending && new_v == old_v
    }
}

/// One look at the request pending under `id`. Where its callback came, the
/// entry is removed and the callback converted; where delivery stopped first,
/// the entry is removed and the request fails with `TransportClosed`; where
/// no request is pending under `id`, it fails with `RoutingMiss`; otherwise it
/// is still pending and nothing changes.
pub fn poll_request(registry: &mut CorrelationRegistry, id: &str) -> (r: RequestPoll)
    requires
        old(registry).wf(),
    ensures
        final(registry).wf(),
        polled(old(registry)@, id@, r, final(registry)@),
{
    if !registry.contains(id) {
        return RequestPoll::Finished(Err(XCallbackError::RoutingMiss(id.to_string())));
    }
    match registry.take_response(id) {
        Some(u) => RequestPoll::Finished(callback_url_to_response(&u)),
        None => {
            if registry.is_closed() {
                registry.unregister(id);
                RequestPoll::Finished(Err(XCallbackError::TransportClosed))
            } else {
                RequestPoll::Pending
            }
        },
    }
}

/// The correlation id that an inbound callback carries: the value of its
/// first action parameter under the correlation key.
pub fn correlation_id_of(url: &XCallbackUrl) -> (r: Option<&str>)
    ensures
        opt_str_view(r) == first_value_of(url@.action_params, CALLBACK_PARAM_KEY_CALLBACK_ID@),
{
    let ghost q = url@.action_params;
    let mut it = url.action_params().iter();
    let ghost mut seen: int = 0;
    loop
        invariant
            q == url@.action_params,
            it.wf(),
            0 <= seen <= q.len(),
            it@ == q.skip(seen),
            first_value_of(q, CALLBACK_PARAM_KEY_CALLBACK_ID@) == first_value_of(
                q.skip(seen),
                CALLBACK_PARAM_KEY_CALLBACK_ID@,
            ),
        decreases it@.len(),
    {
        match it.next() {
            None => {
                assert(q.skip(seen).len() == 0);
                return None;
            },
            Some((k, v)) => {
                assert(q.skip(seen)[0] == (k@, v@));
                if str_eq(k, CALLBACK_PARAM_KEY_CALLBACK_ID) {
                    return Some(v);
                }
                proof {
                    assert(q.skip(seen).drop_first() =~= q.skip(seen + 1));
                    seen = seen + 1;
                }
            },
        }
    }
}

/// What routing the inbound callback `u` does: from registry `old_v` to
/// `new_v`, with result `r`.
pub open spec fn routed(
    old_v: RegistryView,
    u: XCallbackUrlView,
    r: Result<(), XCallbackError>,
    new_v: RegistryView,
) -> bool {
    match first_value_of(u.action_params, CALLBACK_PARAM_KEY_CALLBACK_ID@) {
        None => r matches Err(XCallbackError::MissingCorrelationId) && new_v == old_v,
        Some(id) => if !old_v.entries.contains_key(id) {
            r matches Err(XCallbackError::RoutingMiss(d)) && d@ == id && new_v == old_v
        } else if old_v.entries[id] is Some {
            r matches Err(XCallbackError::AlreadyResolved(d)) && d@ == id && new_v == old_v
        } else {
            r is Ok && new_v == (RegistryView { entries: old_v.entries.insert(id, Some(u)), ..old_v })
        },
    }
}

/// Routes a parsed inbound callback to the request that its correlation id
/// names. Fails with `MissingCorrelationId` where it carries none, and
/// otherwise as `resolve` does; on any failure the registry is unchanged.
pub fn route_inbound(registry: &mut CorrelationRegistry, url: XCallbackUrl) -> (r: Result<
    (),
    XCallbackError,
>)
    requires
        old(registry).wf(),
    ensures
        final(registry).wf(),
        r is Err ==> final(registry)@ == old(registry)@,
        routed(old(registry)@, url@, r, final(registry)@),
{
    let id = match correlation_id_of(&url) {
        Some(id) => id.to_string(),
        None => {
            return Err(XCallbackError::MissingCorrelationId);
        },
    };
    registry.resolve(id.as_str(), url)
}

/// Handles one inbound callback string: parses it and routes it. A string
/// that does not parse fails as `parse` does; the registry changes only where
/// the callback is delivered.
pub fn on_inbound(registry: &mut CorrelationRegistry, raw: &str) -> (r: Result<(), XCallbackError>)
    requires
        old(registry).wf(),
    ensures
        final(registry).wf(),
        r is Err ==> final(registry)@ == old(registry)@,
        match parsed_url(raw@) {
            None => r matches Err(XCallbackError::InvalidUrl),
            Some(p) => if has_callback_host(p) {
                routed(old(registry)@, url_of_parts(p), r, final(registry)@)
            } else {
                r matches Err(XCallbackError::InvalidHost(h)) && h@ == host_or_empty(p)
            },
        },
{
    match XCallbackUrl::parse(raw) {
        Err(e) => Err(e),
        Ok(url) => route_inbound(registry, url),
    }
}

/// A callback reaches only the request that its correlation id names. Where
/// a request is waiting under that id, routing the callback fills that
/// request's slot and leaves every other entry as it was; the next look at
/// that request finishes it with the callback's conversion (the status that
/// its action names with the correlation id stripped from its parameters, or
/// `InvalidAction` for any other action) and removes its entry, again leaving
/// every other entry as it was.
pub proof fn lemma_callback_reaches_own_request(
    v0: RegistryView,
    u: XCallbackUrlView,
    routing: Result<(), XCallbackError>,
    v1: RegistryView,
    look: RequestPoll,
    v2: RegistryView,
    id: Seq<char>,
    other: Seq<char>,
)
    requires
        first_value_of(u.action_params, CALLBACK_PARAM_KEY_CALLBACK_ID@) == Some(id),
        v0.entries.contains_key(id),
        v0.entries[id] is None,
        routed(v0, u, routing, v1),
        polled(v1, id, look, v2),
        other != id,
    ensures
        routing is Ok,
        v1.entries[id] == Some(u),
        look matches RequestPoll::Finished(res) && response_result(u, res),
        !v2.entries.contains_key(id),
        v1.entries.contains_key(other) == v0.entries.contains_key(other),
        v2.entries.contains_key(other) == v0.entries.contains_key(other),
        v0.entries.contains_key(other) ==> v1.entries[other] == v0.entries[other]
            && v2.entries[other] == v0.entries[other],
{
}

} // verus!
