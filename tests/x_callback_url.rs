use callback::x_callback_url::{
    pairs_unreserved, ActionParams, CallbackParams, XCallbackError, XCallbackUrl,
};

fn action_pairs(url: &XCallbackUrl) -> Vec<(String, String)> {
    let mut it = url.action_params().iter();
    let mut out = Vec::new();
    while let Some((k, v)) = it.next() {
        out.push((k.to_string(), v.to_string()));
    }
    out
}

fn reserved_pairs(url: &XCallbackUrl) -> Vec<(String, String)> {
    let mut it = url.callback_params().iter();
    let mut out = Vec::new();
    while let Some((k, v)) = it.next() {
        out.push((k.to_string(), v.to_string()));
    }
    out
}

#[test]
fn test() {
    let input = "callback://x-callback-url/action\
            ?key=value\
            &x-success=callback%3A%2F%2Fx-callback-success";

    let url = XCallbackUrl::parse(input).unwrap();

    assert_eq!("callback", url.scheme());
    assert_eq!("action", url.action());
    assert_eq!(
        vec![("key".to_string(), "value".to_string())],
        action_pairs(&url)
    );
    assert_eq!(
        Some("callback://x-callback-success"),
        url.callback_params().success()
    );
    assert_eq!(url.to_string(), input);
}

#[test]
fn test_no_params() {
    let input = "callback://x-callback-url/action";

    let url = XCallbackUrl::parse(input).unwrap();

    assert_eq!("callback", url.scheme());
    assert_eq!("action", url.action());
    assert_eq!(action_pairs(&url).len(), 0);
    assert_eq!(url.callback_params().source(), None);
    assert_eq!(url.callback_params().success(), None);
    assert_eq!(url.callback_params().error(), None);
    assert_eq!(url.callback_params().cancel(), None);
    assert_eq!(url.to_string(), input);
}

#[test]
fn test_no_action_params() {
    let input = "callback://x-callback-url/action\
        ?x-success=callback%3A%2F%2Fx-callback-success";

    let url = XCallbackUrl::parse(input).unwrap();

    assert_eq!("callback", url.scheme());
    assert_eq!("action", url.action());
    assert_eq!(action_pairs(&url).len(), 0);
    assert_eq!(
        Some("callback://x-callback-success"),
        url.callback_params().success()
    );
    assert_eq!(url.to_string(), input);
}

#[test]
fn test_no_callback_params() {
    let input = "callback://x-callback-url/action\
        ?key=value";

    let url = XCallbackUrl::parse(input).unwrap();

    assert_eq!("callback", url.scheme());
    assert_eq!("action", url.action());
    assert_eq!(
        vec![("key".to_string(), "value".to_string())],
        action_pairs(&url)
    );
    assert_eq!(url.callback_params().source(), None);
    assert_eq!(url.callback_params().success(), None);
    assert_eq!(url.callback_params().error(), None);
    assert_eq!(url.callback_params().cancel(), None);
    assert_eq!(url.to_string(), input);
}

#[test]
fn partition_sends_reserved_names_apart_and_keeps_order() {
    let input = "app://x-callback-url/do?b=2&x-source=me&a=1&x-foo=kept\
        &x-error=e1&x-cancel=c&x-success=s&x-error=e2&c=3";
    let url = XCallbackUrl::parse(input).unwrap();
    assert_eq!(
        action_pairs(&url),
        vec![
            ("b".to_string(), "2".to_string()),
            ("a".to_string(), "1".to_string()),
            ("x-foo".to_string(), "kept".to_string()),
            ("c".to_string(), "3".to_string()),
        ]
    );
    assert_eq!(url.callback_params().source(), Some("me"));
    assert_eq!(url.callback_params().success(), Some("s"));
    assert_eq!(url.callback_params().error(), Some("e2"));
    assert_eq!(url.callback_params().cancel(), Some("c"));
}

#[test]
fn partition_keeps_every_unreserved_pair() {
    let url = XCallbackUrl::parse("app://x-callback-url/do?k=1&k=2&z=&y=%20").unwrap();
    assert_eq!(
        action_pairs(&url),
        vec![
            ("k".to_string(), "1".to_string()),
            ("k".to_string(), "2".to_string()),
            ("z".to_string(), "".to_string()),
            ("y".to_string(), " ".to_string()),
        ]
    );
    assert_eq!(reserved_pairs(&url).len(), 0);
}

#[test]
fn round_trip_of_a_built_url() {
    let mut url = XCallbackUrl::new("bear");
    url.set_action("create");
    url.append_action_param("title", "My Note");
    url.append_action_param("text", "a&b=c");
    url.set_reserved(
        Some("callback"),
        Some("callback://x-callback-url/success"),
        None,
        Some("callback://x-callback-url/cancel"),
    );
    let written = url.to_string();
    assert_eq!(
        written,
        "bear://x-callback-url/create?title=My+Note&text=a%26b%3Dc&x-source=callback\
         &x-success=callback%3A%2F%2Fx-callback-url%2Fsuccess\
         &x-cancel=callback%3A%2F%2Fx-callback-url%2Fcancel"
    );
    let back = XCallbackUrl::parse(&written).unwrap();
    assert_eq!(back.scheme(), "bear");
    assert_eq!(back.action(), "create");
    assert_eq!(action_pairs(&back), action_pairs(&url));
    assert_eq!(reserved_pairs(&back), reserved_pairs(&url));
    assert_eq!(back.callback_params().error(), None);
    assert_eq!(back.to_string(), written);
}

#[test]
fn reserved_pairs_come_in_fixed_order() {
    let mut url = XCallbackUrl::new("app");
    url.callback_params_mut().set_cancel(Some("c"));
    url.callback_params_mut().set_error(Some("e"));
    url.callback_params_mut().set_success(Some("s"));
    url.callback_params_mut().set_source(Some("src"));
    assert_eq!(
        reserved_pairs(&url),
        vec![
            ("x-source".to_string(), "src".to_string()),
            ("x-success".to_string(), "s".to_string()),
            ("x-error".to_string(), "e".to_string()),
            ("x-cancel".to_string(), "c".to_string()),
        ]
    );
    assert_eq!(
        url.to_string(),
        "app://x-callback-url/?x-source=src&x-success=s&x-error=e&x-cancel=c"
    );
}

#[test]
fn new_url_is_empty() {
    let url = XCallbackUrl::new("bear");
    assert_eq!(url.scheme(), "bear");
    assert_eq!(url.action(), "");
    assert_eq!(action_pairs(&url).len(), 0);
    assert_eq!(reserved_pairs(&url).len(), 0);
    assert_eq!(url.to_string(), "bear://x-callback-url/");
}

#[test]
fn setters_replace_fields() {
    let mut url = XCallbackUrl::new("a");
    url.set_scheme("b");
    url.set_action("go");
    url.append_action_param("k", "v");
    url.set_action_params(&vec![("x".to_string(), "1".to_string())]);
    url.action_params_mut().push("y", "2");
    url.action_params_mut().append(&vec![("z".to_string(), "3".to_string())]);
    assert_eq!(url.scheme(), "b");
    assert_eq!(url.action(), "go");
    assert_eq!(
        action_pairs(&url),
        vec![
            ("x".to_string(), "1".to_string()),
            ("y".to_string(), "2".to_string()),
            ("z".to_string(), "3".to_string()),
        ]
    );
    url.action_params_mut().clear();
    assert_eq!(action_pairs(&url).len(), 0);
    url.callback_params_mut().set_success(Some("s"));
    url.callback_params_mut().set_success(None);
    assert_eq!(url.callback_params().success(), None);
    assert_eq!(url.duplicate().to_string(), url.to_string());
}

#[test]
fn query_pairs_lists_action_then_reserved() {
    let mut url = XCallbackUrl::new("a");
    url.append_action_param("k", "v");
    url.callback_params_mut().set_error(Some("e"));
    assert_eq!(
        url.query_pairs(),
        vec![
            ("k".to_string(), "v".to_string()),
            ("x-error".to_string(), "e".to_string()),
        ]
    );
}

#[test]
fn wrong_host_is_rejected() {
    match XCallbackUrl::parse("callback://example.com/action?key=value") {
        Err(XCallbackError::InvalidHost(h)) => assert_eq!(h, "example.com"),
        other => panic!("unexpected {:?}", other.map(|u| u.to_string())),
    }
    match XCallbackUrl::parse("callback:no-host") {
        Err(XCallbackError::InvalidHost(h)) => assert_eq!(h, ""),
        other => panic!("unexpected {:?}", other.map(|u| u.to_string())),
    }
}

#[test]
fn non_url_is_rejected() {
    assert!(matches!(
        XCallbackUrl::parse("not a url"),
        Err(XCallbackError::InvalidUrl)
    ));
}

#[test]
fn serialization_normalizes_scheme_and_path() {
    let mut url = XCallbackUrl::new("Bear");
    url.set_action("new note");
    assert_eq!(url.to_string(), "bear://x-callback-url/new%20note");
    let back = XCallbackUrl::parse(&url.to_string()).unwrap();
    assert_eq!(back.scheme(), "bear");
    assert_eq!(back.action(), "new%20note");
}

#[test]
fn unusable_scheme_serializes_empty() {
    let url = XCallbackUrl::new("no scheme");
    assert_eq!(url.to_string(), "");
}

#[test]
fn from_pairs_partitions_any_pairs() {
    let pairs = vec![
        ("x-success".to_string(), "s1".to_string()),
        ("k".to_string(), "v".to_string()),
        ("x-other".to_string(), "o".to_string()),
        ("x-success".to_string(), "s2".to_string()),
        ("x-source".to_string(), "me".to_string()),
    ];
    let action = ActionParams::from_pairs(&pairs);
    let mut it = action.iter();
    assert_eq!(it.next(), Some(("k", "v")));
    assert_eq!(it.next(), Some(("x-other", "o")));
    assert_eq!(it.next(), None);
    let reserved = CallbackParams::from_pairs(&pairs);
    assert_eq!(reserved.source(), Some("me"));
    assert_eq!(reserved.success(), Some("s2"));
    assert_eq!(reserved.error(), None);
    assert_eq!(reserved.cancel(), None);
}

#[test]
fn reserved_names_are_detected_among_pairs() {
    assert!(pairs_unreserved(&vec![("title".to_string(), "t".to_string())]));
    assert!(pairs_unreserved(&vec![("x-foo".to_string(), "t".to_string())]));
    assert!(!pairs_unreserved(&vec![
        ("a".to_string(), "1".to_string()),
        ("x-cancel".to_string(), "c".to_string()),
    ]));
    assert!(pairs_unreserved(&Vec::new()));
}

#[test]
fn cloned_action_params_keep_their_pairs() {
    let mut url = XCallbackUrl::new("a");
    url.append_action_param("k", "v");
    let copy = url.clone();
    assert_eq!(action_pairs(&copy), vec![("k".to_string(), "v".to_string())]);
}
