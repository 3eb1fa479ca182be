use rquest_rb::request::{HttpError, TransportOutcome, finish_request};
use rquest_rb::response::{RawReply, ResponseSnapshot, charset_of};
use rquest_rb::text::to_lowercase;

fn reply(status: u16, headers: Vec<(&str, Option<&str>)>, body: Option<&str>) -> RawReply {
    RawReply {
        status,
        url: String::from("https://httpbin.org/get"),
        headers: headers
            .into_iter()
            .map(|(n, v)| (String::from(n), v.map(String::from)))
            .collect(),
        body: body.map(String::from),
    }
}

fn snapshot_of(raw: RawReply) -> ResponseSnapshot {
    match finish_request(TransportOutcome::Completed(raw)) {
        Ok(snap) => snap,
        Err(_) => panic!("a completed exchange must yield a snapshot"),
    }
}

#[test]
fn snapshot_exposes_status_url_and_body() {
    let snap = snapshot_of(reply(
        200,
        vec![("content-type", Some("application/json"))],
        Some("{\"host\": \"httpbin.org\"}"),
    ));
    assert_eq!(snap.status(), 200);
    assert_eq!(snap.code(), 200);
    assert_eq!(snap.uri(), "https://httpbin.org/get");
    assert!(snap.body().contains("httpbin.org"));
    assert_eq!(snap.to_s(), snap.body());
}

#[test]
fn undecodable_body_becomes_empty_text() {
    let snap = snapshot_of(reply(204, vec![], None));
    assert_eq!(snap.body(), "");
}

#[test]
fn undecodable_header_values_are_dropped() {
    let snap = snapshot_of(reply(
        200,
        vec![("x-good", Some("ok")), ("x-bad", None)],
        Some(""),
    ));
    let headers = snap.headers();
    assert_eq!(headers.len(), 1);
    assert_eq!(headers[0].0, "x-good");
    assert_eq!(headers[0].1, "ok");
}

#[test]
fn duplicate_header_names_collapse_last_wins() {
    let snap = snapshot_of(reply(
        200,
        vec![("set-cookie", Some("a=1")), ("set-cookie", Some("b=2"))],
        Some(""),
    ));
    let headers = snap.headers();
    assert_eq!(headers.len(), 1);
    assert_eq!(headers[0].1, "b=2");
}

#[test]
fn content_type_lookup_ignores_case() {
    let snap = snapshot_of(reply(
        200,
        vec![("Content-Type", Some("text/html; charset=utf-8"))],
        Some(""),
    ));
    assert_eq!(
        snap.content_type().as_deref(),
        Some("text/html; charset=utf-8")
    );
    assert!(snap.has_header("CONTENT-TYPE"));
    assert!(!snap.has_header("x-absent"));
}

#[test]
fn charset_is_extracted_from_the_content_type() {
    let snap = snapshot_of(reply(
        200,
        vec![("content-type", Some("text/html; charset=utf-8"))],
        Some(""),
    ));
    assert_eq!(snap.charset().as_deref(), Some("utf-8"));
}

#[test]
fn charset_is_absent_without_a_parameter() {
    let snap = snapshot_of(reply(
        200,
        vec![("content-type", Some("application/json"))],
        Some(""),
    ));
    assert_eq!(snap.charset(), None);

    let bare = snapshot_of(reply(200, vec![], Some("")));
    assert_eq!(bare.charset(), None);
}

#[test]
fn charset_parsing_handles_edge_shapes() {
    assert_eq!(charset_of("text/html; charset=utf-8").as_deref(), Some("utf-8"));
    assert_eq!(
        charset_of("text/plain; version=1; charset=iso-8859-1").as_deref(),
        Some("iso-8859-1")
    );
    assert_eq!(charset_of("text/html; CHARSET=UTF-8").as_deref(), Some("UTF-8"));
    assert_eq!(
        charset_of("text/html;   charset=windows-1251   ").as_deref(),
        Some("windows-1251")
    );
    assert_eq!(charset_of("text/html; charset=a=b").as_deref(), Some("a"));
    assert_eq!(charset_of("text/html; charset="), None);
    assert_eq!(charset_of("text/html; charset =utf-8"), None);
    assert_eq!(charset_of("charset=utf-8"), None);
    assert_eq!(charset_of(""), None);
}

#[test]
fn snapshots_share_behind_a_reference_count() {
    let snap = snapshot_of(reply(200, vec![("x-a", Some("1"))], Some("payload")));
    let shared = snap.into_shared();
    let other = shared.clone();
    assert_eq!(shared.status(), 200);
    assert_eq!(other.body(), "payload");
}

#[test]
fn lower_casing_touches_only_ascii_letters() {
    assert_eq!(to_lowercase("Content-TYPE"), "content-type");
    assert_eq!(to_lowercase("abc-123"), "abc-123");
    assert_eq!(to_lowercase("X_Y+Z"), "x_y+z");
}

#[test]
fn out_of_range_statuses_never_reach_a_snapshot() {
    // the transport hands status codes in HTTP's range; the raw reply's
    // well-formedness bound is 100..=599 and the boundary values pass
    let low = snapshot_of(reply(100, vec![], Some("")));
    assert_eq!(low.status(), 100);
    let high = snapshot_of(reply(599, vec![], Some("")));
    assert_eq!(high.status(), 599);
}

#[test]
fn transport_errors_keep_their_kind() {
    assert!(matches!(
        finish_request(TransportOutcome::TimedOut),
        Err(HttpError::Timeout)
    ));
    assert!(matches!(
        finish_request(TransportOutcome::Failed(String::from("tls handshake eof"))),
        Err(HttpError::TransportFailure(_))
    ));
}
