use vhost_router::counter::{api_body, decimal_digits, ApiState};
use vhost_router::host::{hostname_of, is_text, lower, name_key, same_bytes};
use vhost_router::reply::{ascii_bytes, Rejection};
use vhost_router::router::{settle, MultiDomainRouter};

fn two_hosts() -> MultiDomainRouter<&'static str> {
    let mut r = MultiDomainRouter::new();
    r.add_router("www.test", "static");
    r.add_router("api.test", "api");
    r
}

#[test]
fn registered_host_forwards_to_its_handler() {
    let r = two_hosts();
    assert_eq!(r.route(Some(b"www.test")), Ok(&"static"));
    assert_eq!(r.route(Some(b"api.test")), Ok(&"api"));
    let response: Result<Vec<u8>, String> = Ok(b"hello".to_vec());
    assert_eq!(settle(response), Ok(b"hello".to_vec()));
}

#[test]
fn unknown_host_is_not_found() {
    let r = two_hosts();
    let e = r.route(Some(b"unknown.test")).unwrap_err();
    assert_eq!(e, Rejection::NotFound);
    assert_eq!(e.status(), 404);
    assert_eq!(e.body(), b"Not Found".to_vec());
}

#[test]
fn empty_registry_finds_nothing() {
    let r: MultiDomainRouter<u32> = MultiDomainRouter::new();
    assert_eq!(r.route(Some(b"www.test")), Err(Rejection::NotFound));
    assert_eq!(r.lookup("www.test"), None);
}

#[test]
fn missing_host_is_bad_request() {
    let r = two_hosts();
    let e = r.route(None).unwrap_err();
    assert_eq!(e, Rejection::BadRequest);
    assert_eq!(e.status(), 400);
    assert_eq!(e.body(), b"Bad Request".to_vec());
}

#[test]
fn host_that_is_not_text_is_bad_request() {
    let r = two_hosts();
    assert_eq!(r.route(Some(b"www.test\x01")), Err(Rejection::BadRequest));
    assert_eq!(r.route(Some(&[0xc3, 0xa9])), Err(Rejection::BadRequest));
}

#[test]
fn failed_handler_is_internal_error_and_isolated() {
    let r = two_hosts();
    let failed: Result<Vec<u8>, String> = Err("disk on fire".to_string());
    let e = settle(failed).unwrap_err();
    assert_eq!(e, Rejection::Internal);
    assert_eq!(e.status(), 500);
    assert_eq!(e.body(), b"Internal Server Error".to_vec());
    assert_eq!(r.route(Some(b"www.test")), Ok(&"static"));
}

#[test]
fn counter_numbers_each_request_once() {
    let state = ApiState::new();
    let mut seen = vec![false; 1001];
    for _ in 0..1000 {
        let n = state.record_request();
        assert!(n >= 1 && n <= 1000);
        assert!(!seen[n]);
        seen[n] = true;
    }
    assert_eq!(state.record_request(), 1001);
}

#[test]
fn port_is_stripped() {
    let mut r = MultiDomainRouter::new();
    r.add_router("api.example.com", 7u32);
    assert_eq!(r.route(Some(b"api.example.com:8080")), Ok(&7));
    assert_eq!(r.route(Some(b"api.example.com")), Ok(&7));
}

#[test]
fn last_registration_wins() {
    let mut r = MultiDomainRouter::new();
    r.add_router("www.test", 1u32);
    r.add_router("www.test", 2u32);
    assert_eq!(r.lookup("www.test"), Some(&2));
    assert_eq!(r.route(Some(b"www.test")), Ok(&2));
}

#[test]
fn hostnames_compare_in_lower_case() {
    let mut r = MultiDomainRouter::new();
    r.add_router("WWW.Test", 1u32);
    assert_eq!(r.route(Some(b"www.TEST:80")), Ok(&1));
    assert_eq!(r.lookup("www.test"), Some(&1));
}

enum Site {
    Static,
    Api,
}

fn serve(site: &Site, path: &str, state: &ApiState) -> Result<(u16, Vec<u8>), String> {
    match site {
        Site::Static => {
            if path == "/index.html" {
                Ok((200, b"hello".to_vec()))
            } else {
                Ok((404, b"Not Found".to_vec()))
            }
        }
        Site::Api => Ok((200, api_body(state.record_request()))),
    }
}

fn dispatch(r: &MultiDomainRouter<Site>, host: &[u8], path: &str, state: &ApiState) -> (u16, Vec<u8>) {
    match r.route(Some(host)) {
        Ok(site) => match settle(serve(site, path, state)) {
            Ok(response) => response,
            Err(e) => (e.status(), e.body()),
        },
        Err(e) => (e.status(), e.body()),
    }
}

#[test]
fn end_to_end_scenario() {
    let state = ApiState::new();
    let mut r = MultiDomainRouter::new();
    r.add_router("www.test", Site::Static);
    r.add_router("api.test", Site::Api);
    assert_eq!(dispatch(&r, b"www.test", "/index.html", &state), (200, b"hello".to_vec()));
    assert_eq!(dispatch(&r, b"api.test", "/", &state), (200, b"api: 1".to_vec()));
    assert_eq!(dispatch(&r, b"api.test", "/", &state), (200, b"api: 2".to_vec()));
    assert_eq!(dispatch(&r, b"api.test", "/", &state), (200, b"api: 3".to_vec()));
    assert_eq!(dispatch(&r, b"unknown.test", "/", &state), (404, b"Not Found".to_vec()));
}

#[test]
fn hostname_of_cuts_at_first_colon() {
    assert_eq!(hostname_of(b"a:b:c"), Some(b"a".to_vec()));
    assert_eq!(hostname_of(b":8080"), Some(Vec::new()));
    assert_eq!(hostname_of(b""), Some(Vec::new()));
    assert_eq!(hostname_of(b"Api.Example.COM:443"), Some(b"api.example.com".to_vec()));
    assert_eq!(hostname_of(b"bad\x7f"), None);
}

#[test]
fn text_accepts_tab_and_visible_ascii() {
    assert!(is_text(b"a\tb ~"));
    assert!(!is_text(b"a\nb"));
    assert!(!is_text(&[0x80]));
}

#[test]
fn lower_changes_only_upper_case_letters() {
    assert_eq!(lower(b'A'), b'a');
    assert_eq!(lower(b'Z'), b'z');
    assert_eq!(lower(b'a'), b'a');
    assert_eq!(lower(b'@'), b'@');
    assert_eq!(lower(b'['), b'[');
    assert_eq!(lower(0xc3), 0xc3);
}

#[test]
fn name_key_is_lower_case_bytes() {
    assert_eq!(name_key("WWW.Localhost"), b"www.localhost".to_vec());
    assert_eq!(name_key("caf\u{c9}"), vec![b'c', b'a', b'f', 0xc3, 0x89]);
}

#[test]
fn same_bytes_compares_content() {
    assert!(same_bytes(b"abc", b"abc"));
    assert!(!same_bytes(b"abc", b"abd"));
    assert!(!same_bytes(b"abc", b"ab"));
    assert!(same_bytes(b"", b""));
}

#[test]
fn decimal_digits_in_base_ten() {
    assert_eq!(decimal_digits(0), b"0".to_vec());
    assert_eq!(decimal_digits(9), b"9".to_vec());
    assert_eq!(decimal_digits(10), b"10".to_vec());
    assert_eq!(decimal_digits(1234567), b"1234567".to_vec());
    assert_eq!(decimal_digits(usize::MAX), usize::MAX.to_string().into_bytes());
}

#[test]
fn api_body_embeds_count() {
    assert_eq!(api_body(42), b"api: 42".to_vec());
    assert_eq!(api_body(0), b"api: 0".to_vec());
}

#[test]
fn ascii_bytes_of_text() {
    assert_eq!(ascii_bytes("Hi there"), b"Hi there".to_vec());
    assert_eq!(ascii_bytes(""), Vec::<u8>::new());
}
