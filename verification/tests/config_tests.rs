use rquest_rb::config::{ClientConfig, TransportDecision, transport_decision};
use rquest_rb::request::{Method, prepare_request};
use rquest_rb::rng::XorShiftRng;

fn fresh_config() -> ClientConfig {
    let mut rng = XorShiftRng::from_seed(42);
    ClientConfig::new(&mut rng)
}

#[test]
fn two_distinct_header_names_are_both_kept() {
    let cfg = fresh_config()
        .with_header("X-One", String::from("1"))
        .with_header("x-two", String::from("2"));
    assert_eq!(cfg.get_header("x-one").map(String::as_str), Some("1"));
    assert_eq!(cfg.get_header("X-TWO").map(String::as_str), Some("2"));
}

#[test]
fn repeating_a_header_name_keeps_the_latest_value() {
    let cfg = fresh_config()
        .with_header("Accept", String::from("text/plain"))
        .with_header("ACCEPT", String::from("application/xml"));
    assert_eq!(
        cfg.get_header("accept").map(String::as_str),
        Some("application/xml")
    );
    assert_eq!(cfg.header_pairs().len(), 1);
}

#[test]
fn header_names_are_stored_lower_cased() {
    let cfg = fresh_config().with_header("User-Agent", String::from("probe"));
    let pairs = cfg.header_pairs();
    assert_eq!(pairs.len(), 1);
    assert_eq!(pairs[0].0, "user-agent");
    assert_eq!(pairs[0].1, "probe");
}

#[test]
fn with_headers_merges_and_overwrites() {
    let mut additions = Vec::new();
    additions.push((String::from("B"), String::from("new-b")));
    additions.push((String::from("c"), String::from("c")));
    let cfg = fresh_config()
        .with_header("a", String::from("a"))
        .with_header("b", String::from("old-b"))
        .with_headers(&additions);
    assert_eq!(cfg.get_header("a").map(String::as_str), Some("a"));
    assert_eq!(cfg.get_header("b").map(String::as_str), Some("new-b"));
    assert_eq!(cfg.get_header("c").map(String::as_str), Some("c"));
    assert_eq!(cfg.header_pairs().len(), 3);
}

#[test]
fn builders_do_not_mutate_the_receiver() {
    let mut rng = XorShiftRng::from_seed(9);
    let c1 = ClientConfig::new(&mut rng);
    let c2 = c1.with_proxy(String::from("http://127.0.0.1:8080"), &mut rng);
    assert!(c1.proxy().is_none());
    assert_eq!(c2.proxy().as_deref(), Some("http://127.0.0.1:8080"));
    // the original configuration still prepares requests, without the proxy
    let plan = prepare_request(&c1, Method::Get, String::from("https://example.com/x"), None)
        .expect("the untouched configuration must still work");
    assert!(plan.timeout_ms.is_none());
}

#[test]
fn follow_and_timeout_are_recorded() {
    let cfg = fresh_config();
    assert!(cfg.follows_redirects());
    let off = cfg.follow(false);
    assert!(cfg.follows_redirects());
    assert!(!off.follows_redirects());
    let timed = cfg.with_timeout(1500);
    assert_eq!(timed.timeout_ms(), Some(1500));
    assert_eq!(cfg.timeout_ms(), None);
}

#[test]
fn duplicate_matches_the_original_configuration() {
    let cfg = fresh_config()
        .with_header("a", String::from("1"))
        .follow(false);
    let copy = cfg.duplicate();
    assert_eq!(copy.get_header("a").map(String::as_str), Some("1"));
    assert!(!copy.follows_redirects());
    assert_eq!(copy.timeout_ms(), cfg.timeout_ms());
    assert_eq!(copy.proxy(), cfg.proxy());
}

#[test]
fn proxy_change_requires_a_transport_rebuild() {
    let mut rng = XorShiftRng::from_seed(5);
    let c1 = ClientConfig::new(&mut rng);
    let c2 = c1.with_proxy(String::from("http://127.0.0.1:3128"), &mut rng);
    assert_eq!(transport_decision(&c1, &c2), TransportDecision::Rebuild);
}

#[test]
fn header_and_follow_changes_share_the_transport() {
    let c1 = fresh_config();
    let c2 = c1.with_header("x-probe", String::from("1")).follow(false);
    assert_eq!(transport_decision(&c1, &c2), TransportDecision::Share);
}
