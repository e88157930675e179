use std::sync::Arc;

use hyper::header::HeaderMap;
use hyper::header::HeaderValue;

use another_rust_load_balancer::health::HealthConfig;
use another_rust_load_balancer::health::Healthiness;
use another_rust_load_balancer::lb_strategy::BaseStrategy;
use another_rust_load_balancer::lb_strategy::LoadBalancingStrategy;
use another_rust_load_balancer::lb_strategy::RequestCookie;
use another_rust_load_balancer::lb_strategy::SameSite;
use another_rust_load_balancer::lb_strategy::StickyCookieConfig;
use another_rust_load_balancer::middleware::headers_have_room;
use another_rust_load_balancer::middleware::is_header_value;
use another_rust_load_balancer::middleware::run_request_handlers;
use another_rust_load_balancer::middleware::HEADER_NAMES_BOUND;
use another_rust_load_balancer::middleware::run_response_handlers;
use another_rust_load_balancer::middleware::sticky_cookie_companion::StickyCookieCompanion;
use another_rust_load_balancer::middleware::RequestHandler;
use another_rust_load_balancer::middleware::RequestHandlerContext;
use another_rust_load_balancer::server::BackendAddress;
use another_rust_load_balancer::server::BackendPool;
use another_rust_load_balancer::server::RoutingDecision;

fn config(name: &str, http_only: bool, secure: bool, same_site: SameSite) -> Arc<StickyCookieConfig> {
    Arc::new(StickyCookieConfig { cookie_name: name.to_string(), http_only, secure, same_site })
}

fn context(authority: &str) -> RequestHandlerContext {
    RequestHandlerContext { pool: 0, backend: 0, backend_authority: authority.to_string() }
}

fn set_cookies(headers: &HeaderMap<HeaderValue>) -> Vec<String> {
    headers
        .get_all("set-cookie")
        .iter()
        .map(|v| v.to_str().unwrap().to_string())
        .collect()
}

fn sticky_pool(healths: &[Healthiness]) -> BackendPool {
    let names = ["a:1", "b:1", "c:1"];
    BackendPool {
        addresses: healths
            .iter()
            .enumerate()
            .map(|(i, h)| BackendAddress::new(names[i].to_string(), *h))
            .collect(),
        health_config: HealthConfig {
            slow_threshold: 100,
            interval: 20,
            timeout: 500,
            path: "/".to_string(),
        },
        strategy: LoadBalancingStrategy::StickyCookie {
            config: config("session", true, true, SameSite::Strict),
            inner: BaseStrategy::RoundRobin,
        },
    }
}

#[test]
fn session_cookie_is_written_with_its_attributes() {
    let c = config("session", true, true, SameSite::Lax);
    assert_eq!(c.session_cookie("10.0.0.1:80"), "session=10.0.0.1:80; HttpOnly; SameSite=Lax; Secure");
    let c = config("session", false, false, SameSite::Strict);
    assert_eq!(c.session_cookie("10.0.0.1:80"), "session=10.0.0.1:80; SameSite=Strict");
    let c = config("s", true, false, SameSite::Unrestricted);
    assert_eq!(c.session_cookie("h"), "s=h; HttpOnly; SameSite=None");
    let c = config("s", false, true, SameSite::Unrestricted);
    assert_eq!(c.session_cookie("h"), "s=h; SameSite=None; Secure");
    let c = config("", false, true, SameSite::Lax);
    assert_eq!(c.session_cookie(""), "=; SameSite=Lax; Secure");
}

#[test]
fn companion_stamps_the_backend_on_the_response() {
    let companion = StickyCookieCompanion { config: config("session", true, false, SameSite::Lax) };
    let mut headers = HeaderMap::new();
    headers.insert("content-type", HeaderValue::from_static("text/plain"));
    assert!(companion.modify_response(&mut headers, &context("10.0.0.2:8080")));
    assert_eq!(set_cookies(&headers), vec!["session=10.0.0.2:8080; HttpOnly; SameSite=Lax"]);
    assert_eq!(headers.get("content-type").unwrap(), "text/plain");
    assert_eq!(headers.len(), 2);
}

#[test]
fn companion_replaces_earlier_set_cookie_values() {
    let companion = StickyCookieCompanion { config: config("session", false, true, SameSite::Strict) };
    let mut headers = HeaderMap::new();
    headers.append("set-cookie", HeaderValue::from_static("session=old:1"));
    headers.append("set-cookie", HeaderValue::from_static("theme=dark"));
    headers.insert("x-served-by", HeaderValue::from_static("edge"));
    assert!(companion.modify_response(&mut headers, &context("new:2")));
    assert_eq!(set_cookies(&headers), vec!["session=new:2; SameSite=Strict; Secure"]);
    assert_eq!(headers.get("x-served-by").unwrap(), "edge");
    assert_eq!(headers.len(), 2);
}

#[test]
fn companion_leaves_the_request_alone() {
    let companion = StickyCookieCompanion { config: config("session", true, true, SameSite::Lax) };
    let mut headers = HeaderMap::new();
    headers.insert("cookie", HeaderValue::from_static("session=a:1"));
    let before = headers.clone();
    assert!(companion.modify_request(&mut headers, &context("b:1")));
    assert_eq!(headers, before);
}

#[test]
fn companion_does_not_store_what_is_no_header_value() {
    let companion = StickyCookieCompanion { config: config("session", true, true, SameSite::Lax) };
    let mut headers = HeaderMap::new();
    headers.insert("set-cookie", HeaderValue::from_static("session=a:1"));
    let before = headers.clone();
    assert!(!companion.modify_response(&mut headers, &context("b:1\r\nx-evil: 1")));
    assert_eq!(headers, before);
    let odd = StickyCookieCompanion { config: config("se\u{7f}ssion", true, true, SameSite::Lax) };
    assert!(!odd.modify_response(&mut headers, &context("b:1")));
    assert_eq!(headers, before);
}

#[test]
fn companion_stores_tabs_and_text_beyond_ascii() {
    let companion = StickyCookieCompanion { config: config("s", false, false, SameSite::Lax) };
    let mut headers = HeaderMap::new();
    assert!(companion.modify_response(&mut headers, &context("h\u{e9}\tx")));
    assert_eq!(
        headers.get("set-cookie").unwrap().as_bytes(),
        "s=h\u{e9}\tx; SameSite=Lax".as_bytes()
    );
}

#[test]
fn response_handlers_run_in_order() {
    let handlers = vec![
        StickyCookieCompanion { config: config("first", false, false, SameSite::Lax) },
        StickyCookieCompanion { config: config("second", false, false, SameSite::Strict) },
    ];
    let mut headers = HeaderMap::new();
    assert!(run_response_handlers(&handlers, &mut headers, &context("a:1")));
    assert_eq!(set_cookies(&headers), vec!["second=a:1; SameSite=Strict"]);
    let reversed = vec![
        StickyCookieCompanion { config: config("second", false, false, SameSite::Strict) },
        StickyCookieCompanion { config: config("first", false, false, SameSite::Lax) },
    ];
    assert!(run_response_handlers(&reversed, &mut headers, &context("a:1")));
    assert_eq!(set_cookies(&headers), vec!["first=a:1; SameSite=Lax"]);
}

#[test]
fn empty_chain_changes_nothing() {
    let handlers: Vec<StickyCookieCompanion> = Vec::new();
    let mut headers = HeaderMap::new();
    headers.insert("etag", HeaderValue::from_static("1"));
    let before = headers.clone();
    assert!(run_response_handlers(&handlers, &mut headers, &context("a:1")));
    assert!(run_request_handlers(&handlers, &mut headers, &context("a:1")));
    assert_eq!(headers, before);
}

#[test]
fn chain_goes_on_after_a_handler_that_could_not_store() {
    let handlers = vec![
        StickyCookieCompanion { config: config("bad\n", false, false, SameSite::Lax) },
        StickyCookieCompanion { config: config("good", false, false, SameSite::Lax) },
    ];
    let mut headers = HeaderMap::new();
    assert!(!run_response_handlers(&handlers, &mut headers, &context("a:1")));
    assert_eq!(set_cookies(&headers), vec!["good=a:1; SameSite=Lax"]);
}

#[test]
fn request_handlers_of_companions_change_nothing() {
    let handlers = vec![
        StickyCookieCompanion { config: config("first", false, false, SameSite::Lax) },
        StickyCookieCompanion { config: config("second", false, false, SameSite::Lax) },
    ];
    let mut headers = HeaderMap::new();
    headers.insert("host", HeaderValue::from_static("example.org"));
    let before = headers.clone();
    assert!(run_request_handlers(&handlers, &mut headers, &context("a:1")));
    assert_eq!(headers, before);
}

#[test]
fn route_names_the_chosen_backend() {
    let pool = sticky_pool(&[Healthiness::Healthy, Healthiness::Healthy, Healthiness::Healthy]);
    let healths = vec![Healthiness::Healthy, Healthiness::Unresponsive(None), Healthiness::Slow(9)];
    match pool.route(4, &healths, &Vec::new(), 1) {
        RoutingDecision::Forward(context) => {
            assert_eq!(context.pool, 4);
            assert_eq!(context.backend, 2);
            assert_eq!(context.backend_authority, "c:1");
        }
        RoutingDecision::NoEligibleBackend => panic!("a backend is eligible"),
    }
}

#[test]
fn route_without_eligible_backend_fails() {
    let pool = sticky_pool(&[Healthiness::Healthy, Healthiness::Healthy]);
    let healths = vec![Healthiness::Unresponsive(None), Healthiness::Unresponsive(Some(500))];
    assert!(matches!(
        pool.route(0, &healths, &Vec::new(), 0),
        RoutingDecision::NoEligibleBackend
    ));
}

#[test]
fn dispatch_reads_the_published_health() {
    let pool = sticky_pool(&[Healthiness::Unresponsive(None), Healthiness::Slow(300)]);
    assert_eq!(pool.health_view(), vec![Healthiness::Unresponsive(None), Healthiness::Slow(300)]);
    for ticket in 0..10u64 {
        match pool.dispatch(1, &Vec::new(), ticket) {
            RoutingDecision::Forward(context) => {
                assert_eq!(context.pool, 1);
                assert_eq!(context.backend, 1);
                assert_eq!(context.backend_authority, "b:1");
            }
            RoutingDecision::NoEligibleBackend => panic!("the slow backend is eligible"),
        }
    }
    assert_eq!(pool.addresses[1].publish_if_changed(Healthiness::Unresponsive(Some(502))).is_some(), true);
    assert!(matches!(pool.dispatch(1, &Vec::new(), 0), RoutingDecision::NoEligibleBackend));
}

#[test]
fn set_cookie_names_the_backend_actually_used() {
    let pool = sticky_pool(&[Healthiness::Healthy, Healthiness::Unresponsive(None), Healthiness::Healthy]);
    let companion = StickyCookieCompanion { config: config("session", true, true, SameSite::Strict) };
    let asks_for = |address: &str| {
        vec![RequestCookie { name: "session".to_string(), value: address.to_string() }]
    };
    let cases = vec![
        (asks_for("c:1"), 0u64, "c:1"),
        (asks_for("b:1"), 0u64, "a:1"),
        (asks_for("b:1"), 1u64, "c:1"),
        (Vec::new(), 1u64, "c:1"),
        (asks_for("nowhere"), 2u64, "a:1"),
    ];
    for (cookies, ticket, expected) in cases {
        let context = match pool.dispatch(0, &cookies, ticket) {
            RoutingDecision::Forward(context) => context,
            RoutingDecision::NoEligibleBackend => panic!("two backends are eligible"),
        };
        assert_eq!(context.backend_authority, expected);
        let mut headers = HeaderMap::new();
        assert!(companion.modify_response(&mut headers, &context));
        assert_eq!(
            set_cookies(&headers),
            vec![format!("session={}; HttpOnly; SameSite=Strict; Secure", expected)]
        );
    }
}

fn full_header_map() -> HeaderMap<HeaderValue> {
    let mut headers = HeaderMap::new();
    headers.insert("set-cookie", HeaderValue::from_static("session=old:1"));
    let mut n = 0u32;
    loop {
        let name = hyper::header::HeaderName::from_bytes(format!("x-{}", n).as_bytes()).unwrap();
        if headers.try_insert(name, HeaderValue::from_static("v")).is_err() {
            return headers;
        }
        n += 1;
    }
}

#[test]
fn companion_leaves_a_full_header_map_as_it_was() {
    let companion = StickyCookieCompanion { config: config("session", true, true, SameSite::Lax) };
    let mut headers = full_header_map();
    let before = headers.clone();
    assert!(!companion.modify_response(&mut headers, &context("new:2")));
    assert_eq!(headers, before);
    assert_eq!(set_cookies(&headers), vec!["session=old:1"]);
}

#[test]
fn chain_over_a_full_header_map_changes_nothing() {
    let handlers = vec![
        StickyCookieCompanion { config: config("first", false, false, SameSite::Lax) },
        StickyCookieCompanion { config: config("second", false, false, SameSite::Lax) },
    ];
    let mut headers = full_header_map();
    let before = headers.clone();
    assert!(!run_response_handlers(&handlers, &mut headers, &context("a:1")));
    assert_eq!(headers, before);
    assert!(run_request_handlers(&handlers, &mut headers, &context("a:1")));
    assert_eq!(headers, before);
}

#[test]
fn chain_keeps_the_changes_that_were_made() {
    let handlers = vec![
        StickyCookieCompanion { config: config("good", false, false, SameSite::Lax) },
        StickyCookieCompanion { config: config("bad\n", false, false, SameSite::Lax) },
    ];
    let mut headers = HeaderMap::new();
    headers.insert("etag", HeaderValue::from_static("1"));
    assert!(!run_response_handlers(&handlers, &mut headers, &context("a:1")));
    assert_eq!(set_cookies(&headers), vec!["good=a:1; SameSite=Lax"]);
    assert_eq!(headers.get("etag").unwrap(), "1");
    assert_eq!(headers.len(), 2);
}

#[test]
fn header_values_are_told_from_other_text() {
    assert!(is_header_value(""));
    assert!(is_header_value("session=10.0.0.1:80; HttpOnly"));
    assert!(is_header_value("tab\there"));
    assert!(is_header_value(" ~"));
    assert!(is_header_value("caf\u{e9} \u{1f36a}"));
    assert!(!is_header_value("line\nbreak"));
    assert!(!is_header_value("\r"));
    assert!(!is_header_value("nul\0"));
    assert!(!is_header_value("del\u{7f}"));
    assert!(!is_header_value("\u{1f}"));
    assert!(!is_header_value("caf\u{e9}\u{1b}"));
    for text in ["", "a b", "x\ty", "bad\n", "\u{7f}", "\u{e9}\n", "\u{e9}ok"] {
        assert_eq!(is_header_value(text), HeaderValue::from_str(text).is_ok());
    }
}

#[test]
fn room_is_told_by_the_number_of_names() {
    let mut headers = HeaderMap::new();
    assert!(headers_have_room(&headers));
    for n in 0..HEADER_NAMES_BOUND - 1 {
        let name = hyper::header::HeaderName::from_bytes(format!("x-{}", n).as_bytes()).unwrap();
        headers.append(name, HeaderValue::from_static("v"));
    }
    headers.append("x-0", HeaderValue::from_static("w"));
    assert_eq!(headers.keys_len(), HEADER_NAMES_BOUND - 1);
    assert!(headers_have_room(&headers));
    headers.insert("x-last", HeaderValue::from_static("v"));
    assert_eq!(headers.keys_len(), HEADER_NAMES_BOUND);
    assert!(!headers_have_room(&headers));
    assert!(!headers_have_room(&full_header_map()));
}

#[test]
fn cookie_is_stored_in_every_map_with_room() {
    let companion = StickyCookieCompanion { config: config("session", true, true, SameSite::Lax) };
    let mut headers = HeaderMap::new();
    for n in 0..HEADER_NAMES_BOUND - 1 {
        assert!(headers_have_room(&headers));
        assert!(companion.modify_response(&mut headers, &context("a:1")));
        assert_eq!(set_cookies(&headers), vec!["session=a:1; HttpOnly; SameSite=Lax; Secure"]);
        headers.remove("set-cookie");
        let name = hyper::header::HeaderName::from_bytes(format!("x-{}", n).as_bytes()).unwrap();
        headers.insert(name, HeaderValue::from_static("v"));
    }
    assert!(headers_have_room(&headers));
    assert!(companion.modify_response(&mut headers, &context("a:1")));
}

#[test]
fn cookie_is_stored_in_a_roomy_map_made_with_the_largest_capacity() {
    let companion = StickyCookieCompanion { config: config("session", true, true, SameSite::Lax) };
    let mut headers = HeaderMap::with_capacity(24576);
    for n in 0..HEADER_NAMES_BOUND - 1 {
        let name = hyper::header::HeaderName::from_bytes(format!("x-{}", n).as_bytes()).unwrap();
        headers.insert(name, HeaderValue::from_static("v"));
    }
    assert!(headers_have_room(&headers));
    assert!(companion.modify_response(&mut headers, &context("a:1")));
    assert_eq!(set_cookies(&headers), vec!["session=a:1; HttpOnly; SameSite=Lax; Secure"]);
}

#[test]
fn session_cookie_on_an_empty_response() {
    let companion = StickyCookieCompanion { config: config("lb_session", true, false, SameSite::Lax) };
    let mut headers = HeaderMap::new();
    assert!(companion.modify_response(&mut headers, &context("10.0.0.2:8443")));
    assert_eq!(set_cookies(&headers), vec!["lb_session=10.0.0.2:8443; HttpOnly; SameSite=Lax"]);
    assert_eq!(headers.len(), 1);
}

#[test]
fn equal_headers_and_backend_give_the_same_cookie() {
    let companion = StickyCookieCompanion { config: config("lb_session", false, true, SameSite::Strict) };
    let mut first = HeaderMap::new();
    first.insert("etag", HeaderValue::from_static("1"));
    let mut second = first.clone();
    let one = RequestHandlerContext { pool: 0, backend: 1, backend_authority: "b:1".to_string() };
    let other = RequestHandlerContext { pool: 3, backend: 0, backend_authority: "b:1".to_string() };
    assert!(companion.modify_response(&mut first, &one));
    assert!(companion.modify_response(&mut second, &other));
    assert_eq!(first, second);
    assert_eq!(set_cookies(&first), vec!["lb_session=b:1; SameSite=Strict; Secure"]);
}
