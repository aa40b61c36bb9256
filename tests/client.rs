use callback::cli::{opts_to_url, parse_parameter, response_lines, CallbackOpts};
use callback::client::{
    begin_request, callback_url_to_response, correlation_id_of, generate_callback_url,
    on_inbound, poll_request, request_url, route_inbound, start_request, RequestPoll,
    XCallbackResponse, XCallbackStatus,
};
use callback::registry::{generate_callback_id, CorrelationRegistry};
use callback::x_callback_url::{XCallbackError, XCallbackUrl};

fn finished(p: RequestPoll) -> Result<XCallbackResponse, XCallbackError> {
    match p {
        RequestPoll::Finished(r) => r,
        RequestPoll::Pending => panic!("still pending"),
    }
}

fn pairs(v: &[(&str, &str)]) -> Vec<(String, String)> {
    v.iter().map(|(k, v)| (k.to_string(), v.to_string())).collect()
}

#[test]
fn success_callback_strips_correlation_id() {
    let url = XCallbackUrl::parse(
        "callback://x-callback-url/success?correlation_id=abc&title=Note",
    )
    .unwrap();
    let resp = callback_url_to_response(&url).unwrap();
    assert_eq!(resp.status, XCallbackStatus::Success);
    assert_eq!(resp.action_params, pairs(&[("title", "Note")]));
}

#[test]
fn error_and_cancel_callbacks() {
    let url = XCallbackUrl::parse("callback://x-callback-url/error?errorMessage=no").unwrap();
    let resp = callback_url_to_response(&url).unwrap();
    assert_eq!(resp.status, XCallbackStatus::Error);
    assert_eq!(resp.action_params, pairs(&[("errorMessage", "no")]));
    let url = XCallbackUrl::parse("callback://x-callback-url/cancel?correlation_id=q").unwrap();
    let resp = callback_url_to_response(&url).unwrap();
    assert_eq!(resp.status, XCallbackStatus::Cancel);
    assert!(resp.action_params.is_empty());
}

#[test]
fn unknown_terminal_action_fails() {
    let url = XCallbackUrl::parse("callback://x-callback-url/bogus?correlation_id=abc").unwrap();
    match callback_url_to_response(&url) {
        Err(XCallbackError::InvalidAction(a)) => assert_eq!(a, "bogus"),
        _ => panic!("expected InvalidAction"),
    }
}

#[test]
fn execute_success_through_registry() {
    let mut registry = CorrelationRegistry::new();
    let target = XCallbackUrl::new("bear");
    let pending = begin_request(&mut registry, &target).unwrap();
    assert!(registry.contains(&pending.id));
    assert!(matches!(poll_request(&mut registry, &pending.id), RequestPoll::Pending));
    let inbound = format!(
        "callback://x-callback-url/success?correlation_id={}&title=Note",
        pending.id
    );
    on_inbound(&mut registry, &inbound).unwrap();
    let resp = finished(poll_request(&mut registry, &pending.id)).unwrap();
    assert_eq!(resp.status, XCallbackStatus::Success);
    assert_eq!(resp.action_params, pairs(&[("title", "Note")]));
    assert!(!registry.contains(&pending.id));
}

#[test]
fn execute_bogus_action_fails() {
    let mut registry = CorrelationRegistry::new();
    let pending = begin_request(&mut registry, &XCallbackUrl::new("bear")).unwrap();
    let inbound = format!("callback://x-callback-url/bogus?correlation_id={}", pending.id);
    on_inbound(&mut registry, &inbound).unwrap();
    match finished(poll_request(&mut registry, &pending.id)) {
        Err(XCallbackError::InvalidAction(a)) => assert_eq!(a, "bogus"),
        _ => panic!("expected InvalidAction"),
    }
    assert!(!registry.contains(&pending.id));
}

#[test]
fn concurrent_requests_get_their_own_callbacks() {
    let mut registry = CorrelationRegistry::new();
    let first = begin_request(&mut registry, &XCallbackUrl::new("a")).unwrap();
    let second = begin_request(&mut registry, &XCallbackUrl::new("b")).unwrap();
    assert_ne!(first.id, second.id);
    let to_second = format!(
        "callback://x-callback-url/cancel?correlation_id={}&who=second",
        second.id
    );
    let to_first = format!(
        "callback://x-callback-url/success?correlation_id={}&who=first",
        first.id
    );
    on_inbound(&mut registry, &to_second).unwrap();
    assert!(matches!(poll_request(&mut registry, &first.id), RequestPoll::Pending));
    on_inbound(&mut registry, &to_first).unwrap();
    let r1 = finished(poll_request(&mut registry, &first.id)).unwrap();
    let r2 = finished(poll_request(&mut registry, &second.id)).unwrap();
    assert_eq!(r1.status, XCallbackStatus::Success);
    assert_eq!(r1.action_params, pairs(&[("who", "first")]));
    assert_eq!(r2.status, XCallbackStatus::Cancel);
    assert_eq!(r2.action_params, pairs(&[("who", "second")]));
}

#[test]
fn unknown_id_is_dropped_and_registry_kept() {
    let mut registry = CorrelationRegistry::new();
    registry.register("live").unwrap();
    let r = on_inbound(
        &mut registry,
        "callback://x-callback-url/success?correlation_id=nobody",
    );
    match r {
        Err(XCallbackError::RoutingMiss(id)) => assert_eq!(id, "nobody"),
        _ => panic!("expected RoutingMiss"),
    }
    assert!(registry.contains("live"));
    assert!(!registry.contains("nobody"));
    assert!(matches!(poll_request(&mut registry, "live"), RequestPoll::Pending));
}

#[test]
fn inbound_without_id_or_unparseable_is_dropped() {
    let mut registry = CorrelationRegistry::new();
    registry.register("live").unwrap();
    assert!(matches!(
        on_inbound(&mut registry, "callback://x-callback-url/success?title=x"),
        Err(XCallbackError::MissingCorrelationId)
    ));
    assert!(matches!(
        on_inbound(&mut registry, "garbage"),
        Err(XCallbackError::InvalidUrl)
    ));
    assert!(matches!(
        on_inbound(&mut registry, "callback://elsewhere/success?correlation_id=live"),
        Err(XCallbackError::InvalidHost(_))
    ));
    assert!(matches!(poll_request(&mut registry, "live"), RequestPoll::Pending));
}

#[test]
fn second_delivery_is_refused() {
    let mut registry = CorrelationRegistry::new();
    registry.register("id1").unwrap();
    let url = XCallbackUrl::parse("callback://x-callback-url/success?correlation_id=id1&n=1")
        .unwrap();
    route_inbound(&mut registry, url).unwrap();
    let again = XCallbackUrl::parse("callback://x-callback-url/success?correlation_id=id1&n=2")
        .unwrap();
    assert!(matches!(
        route_inbound(&mut registry, again),
        Err(XCallbackError::AlreadyResolved(_))
    ));
    let resp = finished(poll_request(&mut registry, "id1")).unwrap();
    assert_eq!(resp.action_params, pairs(&[("n", "1")]));
}

#[test]
fn registry_operations() {
    let mut registry = CorrelationRegistry::new();
    assert!(!registry.contains("a"));
    registry.register("a").unwrap();
    match registry.register("a") {
        Err(XCallbackError::DuplicateId(id)) => assert_eq!(id, "a"),
        _ => panic!("expected DuplicateId"),
    }
    assert!(registry.take_response("a").is_none());
    assert!(matches!(
        registry.resolve("b", XCallbackUrl::new("x")),
        Err(XCallbackError::RoutingMiss(_))
    ));
    registry.resolve("a", XCallbackUrl::new("x")).unwrap();
    let got = registry.take_response("a").unwrap();
    assert_eq!(got.scheme(), "x");
    assert!(!registry.contains("a"));
    registry.register("c").unwrap();
    assert!(registry.unregister("c"));
    assert!(!registry.unregister("c"));
    assert!(matches!(
        finished(poll_request(&mut registry, "c")),
        Err(XCallbackError::RoutingMiss(_))
    ));
}

#[test]
fn closed_registry_ends_waiting_requests() {
    let mut registry = CorrelationRegistry::new();
    registry.register("w").unwrap();
    assert!(!registry.is_closed());
    registry.close();
    assert!(registry.is_closed());
    assert!(matches!(
        finished(poll_request(&mut registry, "w")),
        Err(XCallbackError::TransportClosed)
    ));
    assert!(!registry.contains("w"));
}

#[test]
fn generated_ids_are_alphanumeric_and_distinct() {
    let mut seen = std::collections::HashSet::new();
    for _ in 0..1000 {
        let id = generate_callback_id();
        assert_eq!(id.chars().count(), 32);
        assert!(id.chars().all(|c| c.is_ascii_alphanumeric()));
        assert!(seen.insert(id));
    }
}

#[test]
fn duplicate_id_is_not_started() {
    let mut registry = CorrelationRegistry::new();
    registry.register("taken").unwrap();
    assert!(matches!(
        start_request(&mut registry, &XCallbackUrl::new("bear"), "taken"),
        Err(XCallbackError::DuplicateId(_))
    ));
}

#[test]
fn outbound_url_carries_return_addresses() {
    let mut registry = CorrelationRegistry::new();
    let mut target = XCallbackUrl::new("bear");
    target.set_action("create");
    target.append_action_param("title", "T");
    let outbound = start_request(&mut registry, &target, "abc").unwrap();
    assert_eq!(
        outbound,
        "bear://x-callback-url/create?title=T&x-source=callback\
         &x-success=callback%3A%2F%2Fx-callback-url%2Fsuccess%3Fcorrelation_id%3Dabc\
         &x-error=callback%3A%2F%2Fx-callback-url%2Ferror%3Fcorrelation_id%3Dabc\
         &x-cancel=callback%3A%2F%2Fx-callback-url%2Fcancel%3Fcorrelation_id%3Dabc"
    );
    assert!(registry.contains("abc"));
    let built = request_url(&target, "abc");
    assert_eq!(
        built.callback_params().success(),
        Some("callback://x-callback-url/success?correlation_id=abc")
    );
    assert_eq!(built.callback_params().source(), Some("callback"));
}

#[test]
fn return_url_and_correlation_id() {
    let s = generate_callback_url("error", "xyz");
    assert_eq!(s, "callback://x-callback-url/error?correlation_id=xyz");
    let url = XCallbackUrl::parse(&s).unwrap();
    assert_eq!(correlation_id_of(&url), Some("xyz"));
    assert_eq!(correlation_id_of(&XCallbackUrl::new("a")), None);
}

#[test]
fn parameters_need_one_separator() {
    assert_eq!(
        parse_parameter("title=My%20Note").unwrap(),
        ("title".to_string(), "My%20Note".to_string())
    );
    assert_eq!(
        parse_parameter("k=").unwrap(),
        ("k".to_string(), "".to_string())
    );
    assert!(matches!(
        parse_parameter("novalue"),
        Err(XCallbackError::MalformedParameter(_))
    ));
    match parse_parameter("a=b=c") {
        Err(XCallbackError::MalformedParameter(s)) => assert_eq!(s, "a=b=c"),
        _ => panic!("expected MalformedParameter"),
    }
}

#[test]
fn options_build_the_target_url() {
    let opts = CallbackOpts {
        scheme: "bear".to_string(),
        action: "create".to_string(),
        parameters: pairs(&[("title", "T"), ("text", "x")]),
    };
    let url = opts_to_url(&opts);
    assert_eq!(url.scheme(), "bear");
    assert_eq!(url.action(), "create");
    assert_eq!(url.to_string(), "bear://x-callback-url/create?title=T&text=x");
}

#[test]
fn response_lines_skip_empty_values() {
    let resp = XCallbackResponse {
        status: XCallbackStatus::Error,
        action_params: pairs(&[("a", "1"), ("empty", ""), ("b", "2")]),
    };
    assert_eq!(
        response_lines(&resp),
        vec!["error".to_string(), "a=1".to_string(), "b=2".to_string()]
    );
}
