use rquest_rb::config::ClientConfig;
use rquest_rb::request::{
    BodyValue, HttpError, Method, TransportOutcome, finish_request, is_valid_url, prepare_request,
};
use rquest_rb::rng::XorShiftRng;

fn fresh_config() -> ClientConfig {
    let mut rng = XorShiftRng::from_seed(4242);
    ClientConfig::new(&mut rng)
}

fn header_value(plan: &rquest_rb::request::RequestPlan, name: &str) -> Option<String> {
    plan.headers
        .iter()
        .find(|(n, _)| n == name)
        .map(|(_, v)| v.clone())
}

#[test]
fn url_validation_accepts_absolute_urls() {
    assert!(is_valid_url("http://example.com"));
    assert!(is_valid_url("https://example.com/path?q=1"));
    assert!(is_valid_url("h2-x+z://host"));
}

#[test]
fn url_validation_rejects_malformed_urls() {
    assert!(!is_valid_url(""));
    assert!(!is_valid_url("example.com"));
    assert!(!is_valid_url("http:/example.com"));
    assert!(!is_valid_url("://example.com"));
    assert!(!is_valid_url("http://"));
    assert!(!is_valid_url("ht tp://example.com"));
    assert!(!is_valid_url("1http://example.com"));
}

#[test]
fn malformed_url_fails_fast_with_invalid_request() {
    let cfg = fresh_config();
    let r = prepare_request(&cfg, Method::Get, String::from("not a url"), None);
    match r {
        Err(HttpError::InvalidRequest(m)) => assert_eq!(m, "not a url"),
        other => panic!("expected InvalidRequest, got {:?}", other.map(|p| p.url)),
    }
}

#[test]
fn accept_header_is_defaulted_but_not_overridden() {
    let cfg = fresh_config();
    let plan = prepare_request(&cfg, Method::Get, String::from("https://a.example/"), None)
        .expect("valid request");
    assert_eq!(
        header_value(&plan, "accept").as_deref(),
        Some("application/json")
    );

    let cfg2 = fresh_config().with_header("Accept", String::from("text/html"));
    let plan2 = prepare_request(&cfg2, Method::Get, String::from("https://a.example/"), None)
        .expect("valid request");
    assert_eq!(header_value(&plan2, "accept").as_deref(), Some("text/html"));
}

#[test]
fn content_type_is_defaulted_only_for_body_verbs() {
    let cfg = fresh_config();
    let get_plan = prepare_request(&cfg, Method::Get, String::from("https://a.example/"), None)
        .expect("valid request");
    assert_eq!(header_value(&get_plan, "content-type"), None);

    let post_plan = prepare_request(
        &cfg,
        Method::Post,
        String::from("https://a.example/"),
        Some(BodyValue::Text(String::from("x"))),
    )
    .expect("valid request");
    assert_eq!(
        header_value(&post_plan, "content-type").as_deref(),
        Some("application/json")
    );

    let cfg2 = fresh_config().with_header("Content-Type", String::from("text/csv"));
    let put_plan = prepare_request(
        &cfg2,
        Method::Put,
        String::from("https://a.example/"),
        Some(BodyValue::Text(String::from("x"))),
    )
    .expect("valid request");
    assert_eq!(
        header_value(&put_plan, "content-type").as_deref(),
        Some("text/csv")
    );
}

#[test]
fn explicit_user_agent_wins_over_the_emulated_identity() {
    let cfg = fresh_config().with_header("User-Agent", String::from("my-agent/1.0"));
    let plan = prepare_request(&cfg, Method::Get, String::from("https://a.example/"), None)
        .expect("valid request");
    assert_eq!(plan.user_agent.as_deref(), Some("my-agent/1.0"));
    assert_eq!(
        header_value(&plan, "user-agent").as_deref(),
        Some("my-agent/1.0")
    );

    let bare = prepare_request(&fresh_config(), Method::Get, String::from("https://a.example/"), None)
        .expect("valid request");
    assert_eq!(bare.user_agent, None);
}

#[test]
fn redirect_policy_follows_the_flag() {
    let cfg = fresh_config();
    let on = prepare_request(&cfg, Method::Get, String::from("https://a.example/"), None)
        .expect("valid request");
    assert_eq!(on.max_redirects, 10);

    let off_cfg = cfg.follow(false);
    let off = prepare_request(&off_cfg, Method::Get, String::from("https://a.example/"), None)
        .expect("valid request");
    assert_eq!(off.max_redirects, 0);
}

#[test]
fn plain_and_structured_bodies_produce_the_same_payload() {
    let cfg = fresh_config();
    let a = prepare_request(
        &cfg,
        Method::Post,
        String::from("https://a.example/"),
        Some(BodyValue::Text(String::from("test body"))),
    )
    .expect("valid request");
    let b = prepare_request(
        &cfg,
        Method::Post,
        String::from("https://a.example/"),
        Some(BodyValue::Table(Some(String::from("test body")))),
    )
    .expect("valid request");
    assert_eq!(a.body, b.body);
    assert_eq!(a.body.as_deref(), Some("test body"));
}

#[test]
fn structured_table_without_a_body_entry_sends_none() {
    let cfg = fresh_config();
    let plan = prepare_request(
        &cfg,
        Method::Post,
        String::from("https://a.example/"),
        Some(BodyValue::Table(None)),
    )
    .expect("valid request");
    assert_eq!(plan.body, None);
}

#[test]
fn unencodable_body_is_a_serialization_failure() {
    let cfg = fresh_config();
    let r = prepare_request(
        &cfg,
        Method::Patch,
        String::from("https://a.example/"),
        Some(BodyValue::Unencodable),
    );
    assert!(matches!(r, Err(HttpError::SerializationFailure)));
}

#[test]
fn bodyless_verbs_ignore_any_body_argument() {
    let cfg = fresh_config();
    let plan = prepare_request(
        &cfg,
        Method::Head,
        String::from("https://a.example/"),
        Some(BodyValue::Text(String::from("stray"))),
    )
    .expect("valid request");
    assert_eq!(plan.body, None);
}

#[test]
fn timeout_is_carried_into_the_plan() {
    let cfg = fresh_config().with_timeout(2500);
    let plan = prepare_request(&cfg, Method::Delete, String::from("https://a.example/"), None)
        .expect("valid request");
    assert_eq!(plan.timeout_ms, Some(2500));
}

#[test]
fn timed_out_exchanges_surface_as_timeout() {
    let r = finish_request(TransportOutcome::TimedOut);
    assert!(matches!(r, Err(HttpError::Timeout)));
}

#[test]
fn failed_exchanges_carry_the_engine_message_verbatim() {
    let r = finish_request(TransportOutcome::Failed(String::from(
        "dns error: no such host",
    )));
    match r {
        Err(HttpError::TransportFailure(m)) => assert_eq!(m, "dns error: no such host"),
        _ => panic!("expected TransportFailure"),
    }
}
