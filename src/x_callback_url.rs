//! The x-callback-url model.

use crate::text::str_eq;
use crate::url_codec::{
    pairs_view, parse_url_parts, parsed_url, render_url, render_url_with_query, rendered_url,
    rendered_url_with_query, UrlParts, UrlPartsView,
};
use vstd::prelude::*;

verus! {

pub const CALLBACK_HOST: &'static str = "x-callback-url";
pub const CALLBACK_PARAM_KEY_SOURCE: &'static str = "x-source";
pub const CALLBACK_PARAM_KEY_SUCCESS: &'static str = "x-success";
pub const CALLBACK_PARAM_KEY_ERROR: &'static str = "x-error";
pub const CALLBACK_PARAM_KEY_CANCEL: &'static str = "x-cancel";

/// The characters of an optional owned string.
pub open spec fn opt_string_view(o: Option<String>) -> Option<Seq<char>> {
    match o {
        Some(s) => Some(s@),
        None => None,
    }
}

/// The characters of an optional string slice.
pub open spec fn opt_str_view(o: Option<&str>) -> Option<Seq<char>> {
    match o {
        Some(s) => Some(s@),
        None => None,
    }
}

fn opt_as_str(o: &Option<String>) -> (r: Option<&str>)
    ensures
        opt_str_view(r) == opt_string_view(*o),
{
    match o {
        Some(s) => Some(s.as_str()),
        None => None,
    }
}

fn opt_to_owned(o: Option<&str>) -> (r: Option<String>)
    ensures
        opt_string_view(r) == opt_str_view(o),
{
    match o {
        Some(s) => Some(s.to_string()),
        None => None,
    }
}

/// The four return addresses of the protocol, each optional.
pub struct CallbackParamsView {
    pub source: Option<Seq<char>>,
    pub success: Option<Seq<char>>,
    pub error: Option<Seq<char>>,
    pub cancel: Option<Seq<char>>,
}

/// The reserved parameters `x-source`, `x-success`, `x-error` and `x-cancel`.
#[derive(Debug, Clone)]
pub struct CallbackParams {
    source: Option<String>,
    success: Option<String>,
    error: Option<String>,
    cancel: Option<String>,
}

impl View for CallbackParams {
    type V = CallbackParamsView;

    closed spec fn view(&self) -> CallbackParamsView {
        CallbackParamsView {
            source: opt_string_view(self.source),
            success: opt_string_view(self.success),
            error: opt_string_view(self.error),
            cancel: opt_string_view(self.cancel),
        }
    }
}

impl CallbackParams {
    /// No return address set.
    pub fn new() -> (r: CallbackParams)
        ensures
            r@.source is None,
            r@.success is None,
            r@.error is None,
            r@.cancel is None,
    {
        CallbackParams { source: None, success: None, error: None, cancel: None }
    }

    pub fn source(&self) -> (r: Option<&str>)
        ensures
            opt_str_view(r) == self@.source,
    {
        opt_as_str(&self.source)
    }

    pub fn set_source(&mut self, source: Option<&str>)
        ensures
            final(self)@ == (CallbackParamsView { source: opt_str_view(source), ..old(self)@ }),
    {
        self.source = opt_to_owned(source);
    }

    pub fn success(&self) -> (r: Option<&str>)
        ensures
            opt_str_view(r) == self@.success,
    {
        opt_as_str(&self.success)
    }

    pub fn set_success(&mut self, success: Option<&str>)
        ensures
            final(self)@ == (CallbackParamsView { success: opt_str_view(success), ..old(self)@ }),
    {
        self.success = opt_to_owned(success);
    }

    pub fn error(&self) -> (r: Option<&str>)
        ensures
            opt_str_view(r) == self@.error,
    {
        opt_as_str(&self.error)
    }

    pub fn set_error(&mut self, error: Option<&str>)
        ensures
            final(self)@ == (CallbackParamsView { error: opt_str_view(error), ..old(self)@ }),
    {
        self.error = opt_to_owned(error);
    }

    pub fn cancel(&self) -> (r: Option<&str>)
        ensures
            opt_str_view(r) == self@.cancel,
    {
        opt_as_str(&self.cancel)
    }

    pub fn set_cancel(&mut self, cancel: Option<&str>)
        ensures
            final(self)@ == (CallbackParamsView { cancel: opt_str_view(cancel), ..old(self)@ }),
    {
        self.cancel = opt_to_owned(cancel);
    }

    /// The return addresses that a sequence of query pairs carries: for each
    /// reserved name, the value of its last occurrence; pairs under any other
    /// key are ignored.
    pub fn from_pairs(pairs: &Vec<(String, String)>) -> (r: CallbackParams)
        ensures
            r@ == reserved_of(pairs_view(pairs@)),
    {
        let ghost q = pairs_view(pairs@);
        let mut r = CallbackParams::new();
        let n = pairs.len();
        let mut i: usize = 0;
        while i < n
            invariant
                n == pairs@.len(),
                q == pairs_view(pairs@),
                i <= n,
                r@ == reserved_of(q.take(i as int)),
            decreases n - i,
        {
            let key = pairs[i].0.as_str();
            let value = pairs[i].1.as_str();
            proof {
                lemma_reserved_keys_distinct();
                assert(q.take(i + 1).drop_last() =~= q.take(i as int));
                assert(q.take(i + 1).last() == (key@, value@));
            }
            if str_eq(key, CALLBACK_PARAM_KEY_SOURCE) {
                r.set_source(Some(value));
            } else if str_eq(key, CALLBACK_PARAM_KEY_SUCCESS) {
                r.set_success(Some(value));
            } else if str_eq(key, CALLBACK_PARAM_KEY_ERROR) {
                r.set_error(Some(value));
            } else if str_eq(key, CALLBACK_PARAM_KEY_CANCEL) {
                r.set_cancel(Some(value));
            }
            i = i + 1;
        }
        assert(q.take(n as int) =~= q);
        r
    }

    /// The set return addresses as key/value pairs, in the order source,
    /// success, error, cancel.
    pub fn iter(&self) -> (r: CallbackParamsIter<'_>)
        ensures
            r.wf(),
            r@ == reserved_pairs(self@),
    {
        let mut callback_params: Vec<(&str, &str)> = Vec::new();
        push_set_pair(&mut callback_params, CALLBACK_PARAM_KEY_SOURCE, &self.source);
        push_set_pair(&mut callback_params, CALLBACK_PARAM_KEY_SUCCESS, &self.success);
        push_set_pair(&mut callback_params, CALLBACK_PARAM_KEY_ERROR, &self.error);
        push_set_pair(&mut callback_params, CALLBACK_PARAM_KEY_CANCEL, &self.cancel);
        let r = CallbackParamsIter { callback_params, position: 0 };
        assert(r@ =~= reserved_pairs(self@));
        r
    }
}

/// The pair `(k, v)` where the value is set, else nothing.
pub open spec fn opt_pair(k: Seq<char>, v: Option<Seq<char>>) -> Seq<(Seq<char>, Seq<char>)> {
    match v {
        Some(x) => seq![(k, x)],
        None => seq![],
    }
}

/// The set return addresses as key/value pairs, in the order source,
/// success, error, cancel.
pub open spec fn reserved_pairs(c: CallbackParamsView) -> Seq<(Seq<char>, Seq<char>)> {
    opt_pair(CALLBACK_PARAM_KEY_SOURCE@, c.source) + opt_pair(CALLBACK_PARAM_KEY_SUCCESS@, c.success)
        + opt_pair(CALLBACK_PARAM_KEY_ERROR@, c.error) + opt_pair(
        CALLBACK_PARAM_KEY_CANCEL@,
        c.cancel,
    )
}

/// The characters of a sequence of borrowed key/value pairs.
pub open spec fn str_pairs_view(v: Seq<(&str, &str)>) -> Seq<(Seq<char>, Seq<char>)> {
    v.map_values(|p: (&str, &str)| (p.0@, p.1@))
}

fn push_set_pair<'a>(v: &mut Vec<(&'a str, &'a str)>, key: &'a str, value: &'a Option<String>)
    ensures
        str_pairs_view(final(v)@) == str_pairs_view(old(v)@) + opt_pair(
            key@,
            opt_string_view(*value),
        ),
{
    match value {
        Some(x) => {
            v.push((key, x.as_str()));
        },
        None => {},
    }
    assert(str_pairs_view(v@) =~= str_pairs_view(old(v)@) + opt_pair(
        key@,
        opt_string_view(*value),
    ));
}

fn push_set_owned_pair(v: &mut Vec<(String, String)>, key: &str, value: &Option<String>)
    ensures
        pairs_view(final(v)@) == pairs_view(old(v)@) + opt_pair(key@, opt_string_view(*value)),
{
    match value {
        Some(x) => {
            v.push((key.to_string(), x.clone()));
        },
        None => {},
    }
    assert(pairs_view(v@) =~= pairs_view(old(v)@) + opt_pair(key@, opt_string_view(*value)));
}

/// Walks the set return addresses.
pub struct CallbackParamsIter<'a> {
    callback_params: Vec<(&'a str, &'a str)>,
    position: usize,
}

impl<'a> View for CallbackParamsIter<'a> {
    type V = Seq<(Seq<char>, Seq<char>)>;

    /// The pairs not handed out yet.
    closed spec fn view(&self) -> Seq<(Seq<char>, Seq<char>)> {
        str_pairs_view(self.callback_params@).skip(self.position as int)
    }
}

impl<'a> CallbackParamsIter<'a> {
    pub closed spec fn wf(&self) -> bool {
        self.position <= self.callback_params@.len()
    }

    /// The next pair, or `None` once all were handed out.
    pub fn next(&mut self) -> (r: Option<(&'a str, &'a str)>)
        requires
            old(self).wf(),
        ensures
            final(self).wf(),
            old(self)@.len() == 0 ==> r is None && final(self)@ == old(self)@,
            old(self)@.len() > 0 ==> (r matches Some(p) && (p.0@, p.1@) == old(self)@[0]
                && final(self)@ == old(self)@.drop_first()),
    {
        if self.position < self.callback_params.len() {
            let p = self.callback_params[self.position];
            self.position = self.position + 1;
            proof {
                assert(self@ =~= old(self)@.drop_first());
            }
            Some(p)
        } else {
            None
        }
    }
}

/// The four reserved names differ from one another.
pub proof fn lemma_reserved_keys_distinct()
    ensures
        CALLBACK_PARAM_KEY_SOURCE@ != CALLBACK_PARAM_KEY_SUCCESS@,
        CALLBACK_PARAM_KEY_SOURCE@ != CALLBACK_PARAM_KEY_ERROR@,
        CALLBACK_PARAM_KEY_SOURCE@ != CALLBACK_PARAM_KEY_CANCEL@,
        CALLBACK_PARAM_KEY_SUCCESS@ != CALLBACK_PARAM_KEY_ERROR@,
        CALLBACK_PARAM_KEY_SUCCESS@ != CALLBACK_PARAM_KEY_CANCEL@,
        CALLBACK_PARAM_KEY_ERROR@ != CALLBACK_PARAM_KEY_CANCEL@,
{
    reveal_strlit("x-source");
    reveal_strlit("x-success");
    reveal_strlit("x-error");
    reveal_strlit("x-cancel");
    assert(CALLBACK_PARAM_KEY_SOURCE@[3] != CALLBACK_PARAM_KEY_SUCCESS@[3]);
    assert(CALLBACK_PARAM_KEY_SOURCE@[2] != CALLBACK_PARAM_KEY_ERROR@[2]);
    assert(CALLBACK_PARAM_KEY_SOURCE@[2] != CALLBACK_PARAM_KEY_CANCEL@[2]);
    assert(CALLBACK_PARAM_KEY_SUCCESS@[2] != CALLBACK_PARAM_KEY_ERROR@[2]);
    assert(CALLBACK_PARAM_KEY_SUCCESS@[2] != CALLBACK_PARAM_KEY_CANCEL@[2]);
    assert(CALLBACK_PARAM_KEY_ERROR@[2] != CALLBACK_PARAM_KEY_CANCEL@[2]);
}

/// Whether a query key is one of the four reserved names.
pub open spec fn is_reserved_key(k: Seq<char>) -> bool {
    k == CALLBACK_PARAM_KEY_SOURCE@ || k == CALLBACK_PARAM_KEY_SUCCESS@ || k
        == CALLBACK_PARAM_KEY_ERROR@ || k == CALLBACK_PARAM_KEY_CANCEL@
}

/// The pairs of a query that become action parameters: all but those under a
/// reserved name, in their order.
pub open spec fn action_pairs_of(q: Seq<(Seq<char>, Seq<char>)>) -> Seq<(Seq<char>, Seq<char>)> {
    q.filter(|p: (Seq<char>, Seq<char>)| !is_reserved_key(p.0))
}

proof fn lemma_action_pairs_push(q: Seq<(Seq<char>, Seq<char>)>, p: (Seq<char>, Seq<char>))
    ensures
        action_pairs_of(q.push(p)) == if is_reserved_key(p.0) {
            action_pairs_of(q)
        } else {
            action_pairs_of(q).push(p)
        },
{
    assert(q.push(p).drop_last() =~= q);
    assert(q.push(p).last() == p);
    reveal_with_fuel(Seq::filter, 1);
}

/// The value of the last pair of `q` under `key`, if any.
pub open spec fn last_value_of(q: Seq<(Seq<char>, Seq<char>)>, key: Seq<char>) -> Option<Seq<char>>
    decreases q.len(),
{
    if q.len() == 0 {
        None
    } else if q.last().0 == key {
        Some(q.last().1)
    } else {
        last_value_of(q.drop_last(), key)
    }
}

/// The return addresses that a query carries: for each reserved name, the
/// value of its last occurrence.
pub open spec fn reserved_of(q: Seq<(Seq<char>, Seq<char>)>) -> CallbackParamsView {
    CallbackParamsView {
        source: last_value_of(q, CALLBACK_PARAM_KEY_SOURCE@),
        success: last_value_of(q, CALLBACK_PARAM_KEY_SUCCESS@),
        error: last_value_of(q, CALLBACK_PARAM_KEY_ERROR@),
        cancel: last_value_of(q, CALLBACK_PARAM_KEY_CANCEL@),
    }
}

/// The action named by a URL path: the path without its leading separator.
pub open spec fn action_of_path(path: Seq<char>) -> Seq<char> {
    if path.len() == 0 {
        path
    } else {
        path.drop_first()
    }
}

/// No pair uses a reserved name as its key.
pub open spec fn unreserved(q: Seq<(Seq<char>, Seq<char>)>) -> bool {
    forall|i: int| 0 <= i < q.len() ==> !is_reserved_key(#[trigger] q[i].0)
}

/// The ordered action parameters of a URL. No key is one of the reserved
/// names: those are the return addresses.
#[derive(Debug)]
pub struct ActionParams {
    action_params: Vec<(String, String)>,
}

impl View for ActionParams {
    type V = Seq<(Seq<char>, Seq<char>)>;

    closed spec fn view(&self) -> Seq<(Seq<char>, Seq<char>)> {
        pairs_view(self.action_params@)
    }
}

fn clone_pair(p: &(String, String)) -> (r: (String, String))
    ensures
        r.0@ == p.0@,
        r.1@ == p.1@,
{
    (p.0.clone(), p.1.clone())
}

/// Adds copies of the pairs of `src` after those of `v`, in their order.
fn extend_pairs(v: &mut Vec<(String, String)>, src: &Vec<(String, String)>)
    ensures
        pairs_view(final(v)@) == pairs_view(old(v)@) + pairs_view(src@),
{
    let n = src.len();
    let ghost start = pairs_view(v@);
    let mut i: usize = 0;
    while i < n
        invariant
            n == src@.len(),
            i <= n,
            pairs_view(v@) == start + pairs_view(src@).take(i as int),
        decreases n - i,
    {
        let ghost before = v@;
        v.push(clone_pair(&src[i]));
        proof {
            assert(pairs_view(src@).take(i + 1) =~= pairs_view(src@).take(i as int).push(
                pairs_view(src@)[i as int],
            ));
            assert(pairs_view(v@) =~= pairs_view(before).push(pairs_view(src@)[i as int]));
        }
        i = i + 1;
    }
    assert(pairs_view(src@).take(n as int) =~= pairs_view(src@));
}

impl ActionParams {
    #[verifier::type_invariant]
    closed spec fn keys_unreserved(self) -> bool {
        unreserved(pairs_view(self.action_params@))
    }

    /// No parameter.
    pub fn new() -> (r: ActionParams)
        ensures
            r@ == Seq::<(Seq<char>, Seq<char>)>::empty(),
    {
        let r = ActionParams { action_params: Vec::new() };
        assert(r@ =~= Seq::<(Seq<char>, Seq<char>)>::empty());
        r
    }

    /// The parameters that a sequence of query pairs carries: the pairs
    /// whose key is not a reserved name, in their order.
    pub fn from_pairs(pairs: &Vec<(String, String)>) -> (r: ActionParams)
        ensures
            r@ == action_pairs_of(pairs_view(pairs@)),
    {
        let ghost q = pairs_view(pairs@);
        let mut r = ActionParams::new();
        let n = pairs.len();
        let mut i: usize = 0;
        while i < n
            invariant
                n == pairs@.len(),
                q == pairs_view(pairs@),
                i <= n,
                r@ == action_pairs_of(q.take(i as int)),
            decreases n - i,
        {
            let key = pairs[i].0.as_str();
            let value = pairs[i].1.as_str();
            proof {
                assert(q.take(i + 1) =~= q.take(i as int).push((key@, value@)));
                lemma_action_pairs_push(q.take(i as int), (key@, value@));
            }
            if !ActionParams::is_callback_param(key) {
                r.push(key, value);
            }
            i = i + 1;
        }
        assert(q.take(n as int) =~= q);
        r
    }

    pub fn clear(&mut self)
        ensures
            final(self)@ == Seq::<(Seq<char>, Seq<char>)>::empty(),
    {
        self.action_params = Vec::new();
        assert(self@ =~= Seq::<(Seq<char>, Seq<char>)>::empty());
    }

    /// Adds the given pairs after the present ones, in their order. None of
    /// their keys may be a reserved name.
    pub fn append(&mut self, action_params: &Vec<(String, String)>)
        requires
            unreserved(pairs_view(action_params@)),
        ensures
            final(self)@ == old(self)@ + pairs_view(action_params@),
    {
        proof {
            use_type_invariant(&*self);
        }
        let mut pairs: Vec<(String, String)> = Vec::new();
        core::mem::swap(&mut self.action_params, &mut pairs);
        extend_pairs(&mut pairs, action_params);
        self.action_params = pairs;
        assert forall|i: int| 0 <= i < self@.len() implies !is_reserved_key(#[trigger] self@[i].0) by {
            if i >= old(self)@.len() {
                assert(self@[i] == pairs_view(action_params@)[i - old(self)@.len()]);
            }
        }
    }

    /// Adds one parameter after the present ones. The key may not be a
    /// reserved name.
    pub fn push(&mut self, key: &str, value: &str)
        requires
            !is_reserved_key(key@),
        ensures
            final(self)@ == old(self)@.push((key@, value@)),
    {
        proof {
            use_type_invariant(&*self);
        }
        let mut pairs: Vec<(String, String)> = Vec::new();
        core::mem::swap(&mut self.action_params, &mut pairs);
        pairs.push((key.to_string(), value.to_string()));
        assert(pairs_view(pairs@) =~= old(self)@.push((key@, value@)));
        self.action_params = pairs;
        proof {
            assert(self@ =~= old(self)@.push((key@, value@)));
        }
    }

    /// The pairs, copied.
    fn to_vec(&self) -> (r: Vec<(String, String)>)
        ensures
            pairs_view(r@) == self@,
            unreserved(self@),
    {
        proof {
            use_type_invariant(self);
        }
        let mut r: Vec<(String, String)> = Vec::new();
        extend_pairs(&mut r, &self.action_params);
        assert(pairs_view(r@) =~= self@);
        r
    }

    /// Whether `key` is one of the reserved names, whose pairs are kept apart
    /// from the action parameters.
    fn is_callback_param(key: &str) -> (r: bool)
        ensures
            r == is_reserved_key(key@),
    {
        str_eq(key, CALLBACK_PARAM_KEY_SOURCE) || str_eq(key, CALLBACK_PARAM_KEY_SUCCESS) || str_eq(
            key,
            CALLBACK_PARAM_KEY_ERROR,
        ) || str_eq(key, CALLBACK_PARAM_KEY_CANCEL)
    }

    pub fn iter(&self) -> (r: ActionParamsIter<'_>)
        ensures
            r.wf(),
            r@ == self@,
            unreserved(self@),
    {
        proof {
            use_type_invariant(self);
        }
        let r = ActionParamsIter { action_params: &self.action_params, position: 0 };
        assert(r@ =~= self@);
        r
    }
}

/// Whether no pair uses a reserved name as its key, as the action
/// parameters must not.
pub fn pairs_unreserved(pairs: &Vec<(String, String)>) -> (r: bool)
    ensures
        r == unreserved(pairs_view(pairs@)),
{
    let ghost q = pairs_view(pairs@);
    let n = pairs.len();
    let mut i: usize = 0;
    while i < n
        invariant
            n == pairs@.len(),
            q == pairs_view(pairs@),
            i <= n,
            forall|j: int| 0 <= j < i ==> !is_reserved_key(#[trigger] q[j].0),
        decreases n - i,
    {
        assert(q[i as int].0 == pairs@[i as int].0@);
        if ActionParams::is_callback_param(pairs[i].0.as_str()) {
            return false;
        }
        i = i + 1;
    }
    true
}

impl Clone for ActionParams {
    fn clone(&self) -> (r: ActionParams)
        ensures
            r@ == self@,
    {
        ActionParams { action_params: self.to_vec() }
    }
}

/// Walks the action parameters in order.
pub struct ActionParamsIter<'a> {
    action_params: &'a Vec<(String, String)>,
    position: usize,
}

impl<'a> View for ActionParamsIter<'a> {
    type V = Seq<(Seq<char>, Seq<char>)>;

    /// The pairs not handed out yet.
    closed spec fn view(&self) -> Seq<(Seq<char>, Seq<char>)> {
        pairs_view(self.action_params@).skip(self.position as int)
    }
}

impl<'a> ActionParamsIter<'a> {
    pub closed spec fn wf(&self) -> bool {
        self.position <= self.action_params@.len()
    }

    /// The next pair, or `None` once all were handed out.
    pub fn next(&mut self) -> (r: Option<(&'a str, &'a str)>)
        requires
            old(self).wf(),
        ensures
            final(self).wf(),
            old(self)@.len() == 0 ==> r is None && final(self)@ == old(self)@,
            old(self)@.len() > 0 ==> (r matches Some(p) && (p.0@, p.1@) == old(self)@[0]
                && final(self)@ == old(self)@.drop_first()),
    {
        if self.position < self.action_params.len() {
            let p = &self.action_params[self.position];
            self.position = self.position + 1;
            proof {
                assert(self@ =~= old(self)@.drop_first());
            }
            Some((p.0.as_str(), p.1.as_str()))
        } else {
            None
        }
    }
}


/// Why a URL could not be read, built or answered.
#[derive(Debug, Clone)]
pub enum XCallbackError {
    /// The string is not a URL.
    InvalidUrl,
    /// The URL's host is not `x-callback-url`; holds the host found.
    InvalidHost(String),
    /// An inbound callback's action is none of success, error and cancel.
    InvalidAction(String),
    /// A `key=value` parameter does not hold exactly one `=`.
    MalformedParameter(String),
    /// The registry stopped delivering before the response came.
    TransportClosed,
    /// No pending request has the correlation id.
    RoutingMiss(String),
    /// An inbound callback carries no correlation id.
    MissingCorrelationId,
    /// A pending request already has the correlation id.
    DuplicateId(String),
    /// The request with the correlation id already has its response.
    AlreadyResolved(String),
}

/// The model of one x-callback-url.
pub struct XCallbackUrlView {
    pub scheme: Seq<char>,
    pub action: Seq<char>,
    pub action_params: Seq<(Seq<char>, Seq<char>)>,
    pub callback_params: CallbackParamsView,
}

/// The URL that a parsed string denotes, where its host is `x-callback-url`.
pub open spec fn url_of_parts(p: UrlPartsView) -> XCallbackUrlView {
    XCallbackUrlView {
        scheme: p.scheme,
        action: action_of_path(p.path),
        action_params: action_pairs_of(p.query),
        callback_params: reserved_of(p.query),
    }
}

pub open spec fn has_callback_host(p: UrlPartsView) -> bool {
    p.host == Some(CALLBACK_HOST@)
}

pub open spec fn host_or_empty(p: UrlPartsView) -> Seq<char> {
    match p.host {
        Some(h) => h,
        None => Seq::empty(),
    }
}

/// What reading the components `p` gives.
pub open spec fn from_parts_result(p: UrlPartsView, r: Result<XCallbackUrl, XCallbackError>) -> bool {
    if has_callback_host(p) {
        r matches Ok(u) && u@ == url_of_parts(p)
    } else {
        r matches Err(XCallbackError::InvalidHost(h)) && h@ == host_or_empty(p)
    }
}

/// What parsing the string `s` gives.
pub open spec fn parse_result(s: Seq<char>, r: Result<XCallbackUrl, XCallbackError>) -> bool {
    match parsed_url(s) {
        None => r matches Err(XCallbackError::InvalidUrl),
        Some(p) => from_parts_result(p, r),
    }
}

/// The URL that parsing `s` gives, if any.
pub open spec fn parse_model(s: Seq<char>) -> Option<XCallbackUrlView> {
    match parsed_url(s) {
        Some(p) => if has_callback_host(p) {
            Some(url_of_parts(p))
        } else {
            None
        },
        None => None,
    }
}

/// The query pairs that a URL is written with: its action parameters in
/// order, then its set return addresses.
pub open spec fn query_of(u: XCallbackUrlView) -> Seq<(Seq<char>, Seq<char>)> {
    u.action_params + reserved_pairs(u.callback_params)
}

/// `scheme://x-callback-url/action`.
pub open spec fn base_of(u: XCallbackUrlView) -> Seq<char> {
    u.scheme + "://"@ + CALLBACK_HOST@ + "/"@ + u.action
}

/// The string that a URL is written as: the base, with a query only where
/// there are pairs; empty where the `url` crate rejects the base.
pub open spec fn serialized(u: XCallbackUrlView) -> Seq<char> {
    let q = query_of(u);
    let rendered = if q.len() == 0 {
        rendered_url(base_of(u))
    } else {
        rendered_url_with_query(base_of(u), q)
    };
    match rendered {
        Some(s) => s,
        None => Seq::empty(),
    }
}

/// One x-callback-url: the target scheme, the action, the free-form action
/// parameters and the reserved return addresses.
#[derive(Debug, Clone)]
pub struct XCallbackUrl {
    scheme: String,
    action: String,
    action_params: ActionParams,
    callback_params: CallbackParams,
}

impl View for XCallbackUrl {
    type V = XCallbackUrlView;

    closed spec fn view(&self) -> XCallbackUrlView {
        XCallbackUrlView {
            scheme: self.scheme@,
            action: self.action@,
            action_params: self.action_params@,
            callback_params: self.callback_params@,
        }
    }
}

fn action_from_path(path: &str) -> (r: String)
    ensures
        r@ == action_of_path(path@),
{
    let n = path.unicode_len();
    if n == 0 {
        String::new()
    } else {
        path.substring_char(1, n).to_string()
    }
}

impl XCallbackUrl {
    /// Parses a URL string. Fails with `InvalidUrl` where the `url` crate
    /// rejects it, and with `InvalidHost` where its host is not
    /// `x-callback-url`.
    pub fn parse(input: &str) -> (r: Result<XCallbackUrl, XCallbackError>)
        ensures
            parse_result(input@, r),
    {
        match parse_url_parts(input) {
            Ok(parts) => XCallbackUrl::from_parts(parts),
            Err(_) => Err(XCallbackError::InvalidUrl),
        }
    }

    /// Reads a URL from its components: the action is the path without its
    /// leading separator, pairs under a reserved name set the return address
    /// (the last occurrence wins), and all other pairs become action
    /// parameters in their order.
    pub fn from_parts(parts: UrlParts) -> (r: Result<XCallbackUrl, XCallbackError>)
        ensures
            from_parts_result(parts@, r),
    {
        let host_ok = match &parts.host {
            Some(h) => str_eq(h.as_str(), CALLBACK_HOST),
            None => false,
        };
        if !host_ok {
            let host = match parts.host {
                Some(h) => h,
                None => String::new(),
            };
            return Err(XCallbackError::InvalidHost(host));
        }
        let action_params = ActionParams::from_pairs(&parts.query);
        let callback_params = CallbackParams::from_pairs(&parts.query);
        let action = action_from_path(parts.path.as_str());
        Ok(XCallbackUrl { scheme: parts.scheme, action, action_params, callback_params })
    }

    /// An URL for the given scheme with an empty action, no action parameter
    /// and no return address.
    pub fn new(scheme: &str) -> (r: XCallbackUrl)
        ensures
            r@.scheme == scheme@,
            r@.action == Seq::<char>::empty(),
            r@.action_params == Seq::<(Seq<char>, Seq<char>)>::empty(),
            r@.callback_params == (CallbackParamsView {
                source: None,
                success: None,
                error: None,
                cancel: None,
            }),
    {
        XCallbackUrl {
            scheme: scheme.to_string(),
            action: String::new(),
            action_params: ActionParams::new(),
            callback_params: CallbackParams::new(),
        }
    }

    /// A copy of this URL.
    pub fn duplicate(&self) -> (r: XCallbackUrl)
        ensures
            r@ == self@,
    {
        let mut action_params = ActionParams::new();
        action_params.append(&self.action_params.to_vec());
        let mut callback_params = CallbackParams::new();
        callback_params.set_source(self.callback_params.source());
        callback_params.set_success(self.callback_params.success());
        callback_params.set_error(self.callback_params.error());
        callback_params.set_cancel(self.callback_params.cancel());
        XCallbackUrl {
            scheme: self.scheme.clone(),
            action: self.action.clone(),
            action_params,
            callback_params,
        }
    }

    pub fn scheme(&self) -> (r: &str)
        ensures
            r@ == self@.scheme,
    {
        self.scheme.as_str()
    }

    pub fn set_scheme(&mut self, scheme: &str)
        ensures
            final(self)@ == (XCallbackUrlView { scheme: scheme@, ..old(self)@ }),
    {
        self.scheme = scheme.to_string();
    }

    pub fn action(&self) -> (r: &str)
        ensures
            r@ == self@.action,
    {
        self.action.as_str()
    }

    pub fn set_action(&mut self, action: &str)
        ensures
            final(self)@ == (XCallbackUrlView { action: action@, ..old(self)@ }),
    {
        self.action = action.to_string();
    }

    /// The action parameters; none uses a reserved name.
    pub fn action_params(&self) -> (r: &ActionParams)
        ensures
            r@ == self@.action_params,
            unreserved(r@),
    {
        proof {
            use_type_invariant(&self.action_params);
        }
        &self.action_params
    }

    pub fn action_params_mut(&mut self) -> (r: &mut ActionParams)
        ensures
            r@ == old(self)@.action_params,
            final(self)@ == (XCallbackUrlView { action_params: final(r)@, ..old(self)@ }),
    {
        &mut self.action_params
    }

    pub fn callback_params(&self) -> (r: &CallbackParams)
        ensures
            r@ == self@.callback_params,
    {
        &self.callback_params
    }

    pub fn callback_params_mut(&mut self) -> (r: &mut CallbackParams)
        ensures
            r@ == old(self)@.callback_params,
            final(self)@ == (XCallbackUrlView { callback_params: final(r)@, ..old(self)@ }),
    {
        &mut self.callback_params
    }

    /// Replaces the action parameters with the given pairs, in their order.
    /// None of their keys may be a reserved name.
    pub fn set_action_params(&mut self, action_params: &Vec<(String, String)>)
        requires
            unreserved(pairs_view(action_params@)),
        ensures
            final(self)@ == (XCallbackUrlView {
                action_params: pairs_view(action_params@),
                ..old(self)@
            }),
    {
        self.action_params.clear();
        self.action_params.append(action_params);
        assert(self.action_params@ =~= pairs_view(action_params@));
    }

    /// Adds one action parameter after the present ones. The key may not be
    /// a reserved name.
    pub fn append_action_param(&mut self, key: &str, value: &str)
        requires
            !is_reserved_key(key@),
        ensures
            final(self)@ == (XCallbackUrlView {
                action_params: old(self)@.action_params.push((key@, value@)),
                ..old(self)@
            }),
    {
        self.action_params.push(key, value);
    }

    /// Sets all four return addresses; `None` leaves one unset.
    pub fn set_reserved(
        &mut self,
        source: Option<&str>,
        success: Option<&str>,
        error: Option<&str>,
        cancel: Option<&str>,
    )
        ensures
            final(self)@ == (XCallbackUrlView {
                callback_params: CallbackParamsView {
                    source: opt_str_view(source),
                    success: opt_str_view(success),
                    error: opt_str_view(error),
                    cancel: opt_str_view(cancel),
                },
                ..old(self)@
            }),
    {
        self.callback_params.set_source(source);
        self.callback_params.set_success(success);
        self.callback_params.set_error(error);
        self.callback_params.set_cancel(cancel);
    }

    /// The query pairs that the URL is written with: the action parameters in
    /// order, then the set return addresses in the order source, success,
    /// error, cancel.
    pub fn query_pairs(&self) -> (r: Vec<(String, String)>)
        ensures
            pairs_view(r@) == query_of(self@),
    {
        let mut r = self.action_params.to_vec();
        push_set_owned_pair(&mut r, CALLBACK_PARAM_KEY_SOURCE, &self.callback_params.source);
        push_set_owned_pair(&mut r, CALLBACK_PARAM_KEY_SUCCESS, &self.callback_params.success);
        push_set_owned_pair(&mut r, CALLBACK_PARAM_KEY_ERROR, &self.callback_params.error);
        push_set_owned_pair(&mut r, CALLBACK_PARAM_KEY_CANCEL, &self.callback_params.cancel);
        assert(pairs_view(r@) =~= query_of(self@));
        r
    }

    /// The URL as a string: `scheme://x-callback-url/action`, followed by a
    /// query only where there are pairs; empty where the `url` crate rejects
    /// the base.
    pub fn to_string(&self) -> (r: String)
        ensures
            r@ == serialized(self@),
    {
        let mut base = String::from_str(self.scheme.as_str());
        base.append("://");
        base.append(CALLBACK_HOST);
        base.append("/");
        base.append(self.action.as_str());
        let query = self.query_pairs();
        let rendered = if query.len() == 0 {
            render_url(base.as_str())
        } else {
            render_url_with_query(base.as_str(), &query)
        };
        match rendered {
            Ok(s) => s,
            Err(_) => String::new(),
        }
    }
}


proof fn lemma_last_value_concat(a: Seq<(Seq<char>, Seq<char>)>, b: Seq<(Seq<char>, Seq<char>)>, k: Seq<char>)
    ensures
        last_value_of(a + b, k) == match last_value_of(b, k) {
            Some(v) => Some(v),
            None => last_value_of(a, k),
        },
    decreases b.len(),
{
    if b.len() == 0 {
        assert(a + b =~= a);
    } else {
        assert((a + b).drop_last() =~= a + b.drop_last());
        assert((a + b).last() == b.last());
        lemma_last_value_concat(a, b.drop_last(), k);
    }
}

proof fn lemma_last_value_present(q: Seq<(Seq<char>, Seq<char>)>, k: Seq<char>, i: int)
    requires
        0 <= i < q.len(),
        q[i].0 == k,
    ensures
        last_value_of(q, k) is Some,
    decreases q.len(),
{
    if q.last().0 != k {
        assert(q.drop_last()[i] == q[i]);
        lemma_last_value_present(q.drop_last(), k, i);
    }
}

proof fn lemma_last_value_absent(q: Seq<(Seq<char>, Seq<char>)>, k: Seq<char>)
    requires
        forall|i: int| 0 <= i < q.len() ==> q[i].0 != k,
    ensures
        last_value_of(q, k) is None,
    decreases q.len(),
{
    if q.len() > 0 {
        assert(q.last() == q[q.len() - 1]);
        assert forall|i: int| 0 <= i < q.drop_last().len() implies q.drop_last()[i].0 != k by {
            assert(q.drop_last()[i] == q[i]);
        }
        lemma_last_value_absent(q.drop_last(), k);
    }
}

proof fn lemma_action_pairs_unreserved(q: Seq<(Seq<char>, Seq<char>)>)
    requires
        forall|i: int| 0 <= i < q.len() ==> !is_reserved_key(q[i].0),
    ensures
        action_pairs_of(q) == q,
    decreases q.len(),
{
    if q.len() > 0 {
        assert(q.drop_last().push(q.last()) =~= q);
        assert(q.last() == q[q.len() - 1]);
        assert forall|i: int| 0 <= i < q.drop_last().len() implies !is_reserved_key(
            q.drop_last()[i].0,
        ) by {
            assert(q.drop_last()[i] == q[i]);
        }
        lemma_action_pairs_unreserved(q.drop_last());
        lemma_action_pairs_push(q.drop_last(), q.last());
    }
}

proof fn lemma_action_pairs_reserved(q: Seq<(Seq<char>, Seq<char>)>)
    requires
        forall|i: int| 0 <= i < q.len() ==> is_reserved_key(q[i].0),
    ensures
        action_pairs_of(q) == Seq::<(Seq<char>, Seq<char>)>::empty(),
    decreases q.len(),
{
    if q.len() > 0 {
        assert(q.drop_last().push(q.last()) =~= q);
        assert(q.last() == q[q.len() - 1]);
        assert forall|i: int| 0 <= i < q.drop_last().len() implies is_reserved_key(
            q.drop_last()[i].0,
        ) by {
            assert(q.drop_last()[i] == q[i]);
        }
        lemma_action_pairs_reserved(q.drop_last());
        lemma_action_pairs_push(q.drop_last(), q.last());
    }
}

/// How a query is split: the action parameters are the pairs under
/// non-reserved keys, each of them kept, in their order, and none under a
/// reserved name; each reserved name that occurs sets its return address; and
/// where no key is reserved every pair is an action parameter and no return
/// address is set.
pub proof fn lemma_partition(q: Seq<(Seq<char>, Seq<char>)>, r: Seq<(Seq<char>, Seq<char>)>)
    ensures
        action_pairs_of(q + r) == action_pairs_of(q) + action_pairs_of(r),
        forall|i: int|
            0 <= i < q.len() && !is_reserved_key(q[i].0) ==> action_pairs_of(q).contains(q[i]),
        forall|i: int|
            0 <= i < action_pairs_of(q).len() ==> !is_reserved_key(action_pairs_of(q)[i].0),
        forall|i: int| 0 <= i < q.len() && q[i].0 == CALLBACK_PARAM_KEY_SOURCE@ ==> (
        reserved_of(q).source is Some),
        forall|i: int| 0 <= i < q.len() && q[i].0 == CALLBACK_PARAM_KEY_SUCCESS@ ==> (
        reserved_of(q).success is Some),
        forall|i: int| 0 <= i < q.len() && q[i].0 == CALLBACK_PARAM_KEY_ERROR@ ==> (
        reserved_of(q).error is Some),
        forall|i: int| 0 <= i < q.len() && q[i].0 == CALLBACK_PARAM_KEY_CANCEL@ ==> (
        reserved_of(q).cancel is Some),
        (forall|i: int| 0 <= i < q.len() ==> !is_reserved_key(q[i].0)) ==> (action_pairs_of(q)
            == q && reserved_of(q) == (CallbackParamsView {
            source: None,
            success: None,
            error: None,
            cancel: None,
        })),
{
    let pred = |p: (Seq<char>, Seq<char>)| !is_reserved_key(p.0);
    Seq::filter_distributes_over_add(q, r, pred);
    assert forall|i: int|
        0 <= i < q.len() && !is_reserved_key(q[i].0) implies action_pairs_of(q).contains(
        q[i],
    ) by {
        q.lemma_filter_contains(pred, i);
    }
    assert forall|i: int| 0 <= i < action_pairs_of(q).len() implies !is_reserved_key(
        action_pairs_of(q)[i].0,
    ) by {
        q.lemma_filter_pred(pred, i);
    }
    assert forall|i: int| 0 <= i < q.len() && q[i].0 == CALLBACK_PARAM_KEY_SOURCE@ implies (
    reserved_of(q).source is Some) by {
        lemma_last_value_present(q, CALLBACK_PARAM_KEY_SOURCE@, i);
    }
    assert forall|i: int| 0 <= i < q.len() && q[i].0 == CALLBACK_PARAM_KEY_SUCCESS@ implies (
    reserved_of(q).success is Some) by {
        lemma_last_value_present(q, CALLBACK_PARAM_KEY_SUCCESS@, i);
    }
    assert forall|i: int| 0 <= i < q.len() && q[i].0 == CALLBACK_PARAM_KEY_ERROR@ implies (
    reserved_of(q).error is Some) by {
        lemma_last_value_present(q, CALLBACK_PARAM_KEY_ERROR@, i);
    }
    assert forall|i: int| 0 <= i < q.len() && q[i].0 == CALLBACK_PARAM_KEY_CANCEL@ implies (
    reserved_of(q).cancel is Some) by {
        lemma_last_value_present(q, CALLBACK_PARAM_KEY_CANCEL@, i);
    }
    if forall|i: int| 0 <= i < q.len() ==> !is_reserved_key(q[i].0) {
        lemma_action_pairs_unreserved(q);
        lemma_last_value_absent(q, CALLBACK_PARAM_KEY_SOURCE@);
        lemma_last_value_absent(q, CALLBACK_PARAM_KEY_SUCCESS@);
        lemma_last_value_absent(q, CALLBACK_PARAM_KEY_ERROR@);
        lemma_last_value_absent(q, CALLBACK_PARAM_KEY_CANCEL@);
    }
}

proof fn lemma_last_value_opt_pair(k0: Seq<char>, v: Option<Seq<char>>, k: Seq<char>)
    ensures
        last_value_of(opt_pair(k0, v), k) == if k == k0 {
            v
        } else {
            None
        },
{
    let p = opt_pair(k0, v);
    reveal_with_fuel(last_value_of, 2);
    if let Some(x) = v {
        assert(p.last() == (k0, x));
        assert(p.drop_last().len() == 0);
    }
}

proof fn lemma_reserved_pairs_reserved(c: CallbackParamsView)
    ensures
        forall|i: int|
            0 <= i < reserved_pairs(c).len() ==> is_reserved_key(#[trigger] reserved_pairs(c)[i].0),
{
    let s = opt_pair(CALLBACK_PARAM_KEY_SOURCE@, c.source);
    let su = opt_pair(CALLBACK_PARAM_KEY_SUCCESS@, c.success);
    let e = opt_pair(CALLBACK_PARAM_KEY_ERROR@, c.error);
    let ca = opt_pair(CALLBACK_PARAM_KEY_CANCEL@, c.cancel);
    assert forall|i: int| 0 <= i < reserved_pairs(c).len() implies is_reserved_key(
        #[trigger] reserved_pairs(c)[i].0,
    ) by {
        let rp = s + su + e + ca;
        assert(reserved_pairs(c) == rp);
        if i < s.len() {
            assert(rp[i] == s[i]);
        } else if i < s.len() + su.len() {
            assert(rp[i] == su[i - s.len()]);
        } else if i < s.len() + su.len() + e.len() {
            assert(rp[i] == e[i - s.len() - su.len()]);
        } else {
            assert(rp[i] == ca[i - s.len() - su.len() - e.len()]);
        }
    }
}

proof fn lemma_reserved_pairs_last_key(c: CallbackParamsView, k: Seq<char>)
    ensures
        last_value_of(reserved_pairs(c), k) == if k == CALLBACK_PARAM_KEY_CANCEL@ {
            c.cancel
        } else if k == CALLBACK_PARAM_KEY_ERROR@ {
            c.error
        } else if k == CALLBACK_PARAM_KEY_SUCCESS@ {
            c.success
        } else if k == CALLBACK_PARAM_KEY_SOURCE@ {
            c.source
        } else {
            None
        },
{
    let s = opt_pair(CALLBACK_PARAM_KEY_SOURCE@, c.source);
    let su = opt_pair(CALLBACK_PARAM_KEY_SUCCESS@, c.success);
    let e = opt_pair(CALLBACK_PARAM_KEY_ERROR@, c.error);
    let ca = opt_pair(CALLBACK_PARAM_KEY_CANCEL@, c.cancel);
    lemma_reserved_keys_distinct();
    lemma_last_value_concat(s + su + e, ca, k);
    lemma_last_value_concat(s + su, e, k);
    lemma_last_value_concat(s, su, k);
    lemma_last_value_opt_pair(CALLBACK_PARAM_KEY_SOURCE@, c.source, k);
    lemma_last_value_opt_pair(CALLBACK_PARAM_KEY_SUCCESS@, c.success, k);
    lemma_last_value_opt_pair(CALLBACK_PARAM_KEY_ERROR@, c.error, k);
    lemma_last_value_opt_pair(CALLBACK_PARAM_KEY_CANCEL@, c.cancel, k);
}

proof fn lemma_reserved_pairs_last(c: CallbackParamsView)
    ensures
        last_value_of(reserved_pairs(c), CALLBACK_PARAM_KEY_SOURCE@) == c.source,
        last_value_of(reserved_pairs(c), CALLBACK_PARAM_KEY_SUCCESS@) == c.success,
        last_value_of(reserved_pairs(c), CALLBACK_PARAM_KEY_ERROR@) == c.error,
        last_value_of(reserved_pairs(c), CALLBACK_PARAM_KEY_CANCEL@) == c.cancel,
{
    lemma_reserved_keys_distinct();
    lemma_reserved_pairs_last_key(c, CALLBACK_PARAM_KEY_SOURCE@);
    lemma_reserved_pairs_last_key(c, CALLBACK_PARAM_KEY_SUCCESS@);
    lemma_reserved_pairs_last_key(c, CALLBACK_PARAM_KEY_ERROR@);
    lemma_reserved_pairs_last_key(c, CALLBACK_PARAM_KEY_CANCEL@);
}

/// The components that a URL is written with: its scheme, the host
/// `x-callback-url`, the path `/action` and its query pairs.
pub open spec fn parts_of(u: XCallbackUrlView) -> UrlPartsView {
    UrlPartsView {
        scheme: u.scheme,
        host: Some(CALLBACK_HOST@),
        path: seq!['/'] + u.action,
        query: query_of(u),
    }
}

/// Reading back what a URL is written with gives the URL. Where no action
/// parameter uses a reserved name (as for every `XCallbackUrl`, see
/// `action_params`), the components that `u` is written with
/// read as `u`; so wherever the `url` crate parses the serialized string into
/// those components, parsing it gives `u` back.
pub proof fn lemma_round_trip(u: XCallbackUrlView)
    requires
        forall|i: int| 0 <= i < u.action_params.len() ==> !is_reserved_key(u.action_params[i].0),
    ensures
        has_callback_host(parts_of(u)),
        url_of_parts(parts_of(u)) == u,
        parsed_url(serialized(u)) == Some(parts_of(u)) ==> parse_model(serialized(u)) == Some(u),
{
    let ap = u.action_params;
    let c = u.callback_params;
    let rp = reserved_pairs(c);
    lemma_reserved_keys_distinct();
    lemma_partition(ap, rp);
    lemma_action_pairs_unreserved(ap);
    lemma_reserved_pairs_reserved(c);
    lemma_action_pairs_reserved(rp);
    assert(ap + Seq::<(Seq<char>, Seq<char>)>::empty() =~= ap);
    lemma_reserved_pairs_last(c);
    lemma_last_value_absent(ap, CALLBACK_PARAM_KEY_SOURCE@);
    lemma_last_value_absent(ap, CALLBACK_PARAM_KEY_SUCCESS@);
    lemma_last_value_absent(ap, CALLBACK_PARAM_KEY_ERROR@);
    lemma_last_value_absent(ap, CALLBACK_PARAM_KEY_CANCEL@);
    lemma_last_value_concat(ap, rp, CALLBACK_PARAM_KEY_SOURCE@);
    lemma_last_value_concat(ap, rp, CALLBACK_PARAM_KEY_SUCCESS@);
    lemma_last_value_concat(ap, rp, CALLBACK_PARAM_KEY_ERROR@);
    lemma_last_value_concat(ap, rp, CALLBACK_PARAM_KEY_CANCEL@);
    assert((seq!['/'] + u.action).drop_first() =~= u.action);
}

} // verus!
