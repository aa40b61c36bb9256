//! What the command line front end decides: reading `key=value` parameters,
//! building the target URL from the options, and the lines that report a
//! response.

use crate::client::{XCallbackResponse, XCallbackStatus};
use crate::url_codec::pairs_view;
use crate::x_callback_url::{unreserved, CallbackParamsView, XCallbackError, XCallbackUrl, XCallbackUrlView};
use vstd::prelude::*;

verus! {

/// The options of one invocation: target scheme, action and action
/// parameters.
pub struct CallbackOpts {
    pub scheme: String,
    pub action: String,
    pub parameters: Vec<(String, String)>,
}

/// `s` holds exactly one `=`.
pub open spec fn has_single_separator(s: Seq<char>) -> bool {
    exists|i: int|
        0 <= i < s.len() && s[i] == '=' && (forall|j: int|
            0 <= j < s.len() && j != i ==> s[j] != '=')
}

/// Reads a `key=value` parameter. Fails with `MalformedParameter` unless the
/// text holds exactly one `=`.
pub fn parse_parameter(src: &str) -> (r: Result<(String, String), XCallbackError>)
    ensures
        r is Ok <==> has_single_separator(src@),
        r matches Ok(kv) ==> src@ == kv.0@ + seq!['='] + kv.1@ && !kv.0@.contains('=')
            && !kv.1@.contains('='),
        r matches Err(e) ==> (e matches XCallbackError::MalformedParameter(s) && s@ == src@),
{
    let n = src.unicode_len();
    let mut count: usize = 0;
    let mut first: usize = 0;
    let mut i: usize = 0;
    while i < n
        invariant
            n == src@.len(),
            i <= n,
            count <= i,
            count == 0 ==> forall|j: int| 0 <= j < i ==> src@[j] != '=',
            count >= 1 ==> first < i && src@[first as int] == '=',
            count == 1 ==> forall|j: int| 0 <= j < i && j != first ==> src@[j] != '=',
            count >= 2 ==> exists|j: int| 0 <= j < i && j != first && src@[j] == '=',
        decreases n - i,
    {
        if src.get_char(i) == '=' {
            if count == 0 {
                first = i;
            }
            count = count + 1;
        }
        i = i + 1;
    }
    if count != 1 {
        return Err(XCallbackError::MalformedParameter(src.to_string()));
    }
    let key = src.substring_char(0, first).to_string();
    let value = src.substring_char(first + 1, n).to_string();
    proof {
        assert(src@ =~= key@ + seq!['='] + value@);
        assert(!key@.contains('=')) by {
            assert forall|j: int| 0 <= j < key@.len() implies key@[j] != '=' by {
                assert(key@[j] == src@[j]);
            }
        }
        assert(!value@.contains('=')) by {
            assert forall|j: int| 0 <= j < value@.len() implies value@[j] != '=' by {
                assert(value@[j] == src@[first + 1 + j]);
            }
        }
    }
    Ok((key, value))
}

/// Builds the target URL: the options' scheme and action, with the
/// parameters as action parameters in order. No parameter may use a reserved
/// name: the return addresses are this client's to set.
pub fn opts_to_url(opts: &CallbackOpts) -> (r: XCallbackUrl)
    requires
        unreserved(pairs_view(opts.parameters@)),
    ensures
        r@ == (XCallbackUrlView {
            scheme: opts.scheme@,
            action: opts.action@,
            action_params: pairs_view(opts.parameters@),
            callback_params: CallbackParamsView {
                source: None,
                success: None,
                error: None,
                cancel: None,
            },
        }),
{
    let mut callback_url = XCallbackUrl::new(opts.scheme.as_str());
    callback_url.set_action(opts.action.as_str());
    callback_url.action_params_mut().append(&opts.parameters);
    assert(callback_url@.action_params =~= pairs_view(opts.parameters@));
    callback_url
}

/// The word that reports a status.
pub open spec fn status_word(st: XCallbackStatus) -> Seq<char> {
    match st {
        XCallbackStatus::Success => "success"@,
        XCallbackStatus::Error => "error"@,
        XCallbackStatus::Cancel => "cancel"@,
    }
}

/// `key=value` for each returned pair whose value is not empty, in order.
pub open spec fn param_lines(q: Seq<(Seq<char>, Seq<char>)>) -> Seq<Seq<char>>
    decreases q.len(),
{
    if q.len() == 0 {
        Seq::empty()
    } else if q.last().1.len() > 0 {
        param_lines(q.drop_last()).push(q.last().0 + "="@ + q.last().1)
    } else {
        param_lines(q.drop_last())
    }
}

/// The lines that report a response: the status word, then `key=value` for
/// each returned pair whose value is not empty.
pub fn response_lines(response: &XCallbackResponse) -> (r: Vec<String>)
    ensures
        r@.map_values(|l: String| l@) == seq![status_word(response.status)] + param_lines(
            pairs_view(response.action_params@),
        ),
{
    let status = match response.status {
        XCallbackStatus::Success => "success",
        XCallbackStatus::Error => "error",
        XCallbackStatus::Cancel => "cancel",
    };
    let mut r: Vec<String> = Vec::new();
    r.push(status.to_string());
    let ghost q = pairs_view(response.action_params@);
    let n = response.action_params.len();
    let mut i: usize = 0;
    while i < n
        invariant
            n == response.action_params@.len(),
            q == pairs_view(response.action_params@),
            i <= n,
            r@.map_values(|l: String| l@) == seq![status_word(response.status)] + param_lines(
                q.take(i as int),
            ),
        decreases n - i,
    {
        let key = &response.action_params[i].0;
        let value = &response.action_params[i].1;
        proof {
            assert(q.take(i + 1).drop_last() =~= q.take(i as int));
            assert(q.take(i + 1).last() == (key@, value@));
        }
        let ghost before = r@;
        if !value.as_str().is_empty() {
            let mut line = key.clone();
            line.append("=");
            line.append(value.as_str());
            r.push(line);
            assert(r@.map_values(|l: String| l@) =~= before.map_values(|l: String| l@).push(
                key@ + "="@ + value@,
            ));
        }
        i = i + 1;
    }
    assert(q.take(n as int) =~= q);
    r
}

} // verus!
