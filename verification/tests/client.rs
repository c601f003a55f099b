use cf_ddns::cf::Client;
use cf_ddns::cf::Error;
use cf_ddns::cf::HttpMethod;
use cf_ddns::cf_base::ApiError;
use cf_ddns::cf_base::ApiErrors;
use cf_ddns::cf_base::Ipv4Addr;

fn key_client() -> Client {
    Client::new(b"user@example.com".to_vec(), b"secret-key".to_vec())
}

#[test]
fn start_builds_list_request() {
    let cli = key_client();
    let (sess, req) = cli
        .update_dns_start(b"Z1", b"a.example.com", b"5.6.7.8")
        .unwrap();
    assert_eq!(sess.zone_id, b"Z1".to_vec());
    assert_eq!(sess.domain, b"a.example.com".to_vec());
    assert_eq!(sess.ip, Ipv4Addr::new(5, 6, 7, 8));
    assert!(matches!(req.method, HttpMethod::Get));
    assert_eq!(
        req.url,
        b"https://api.cloudflare.com/client/v4/zones/Z1/dns_records?name=a.example.com&match=any"
            .to_vec()
    );
    assert!(req.body.is_none());
    assert_eq!(req.headers.len(), 2);
    assert_eq!(req.headers[0].0, b"X-Auth-Email".to_vec());
    assert_eq!(req.headers[0].1, b"user@example.com".to_vec());
    assert_eq!(req.headers[1].0, b"X-Auth-Key".to_vec());
    assert_eq!(req.headers[1].1, b"secret-key".to_vec());
}

#[test]
fn start_rejects_bad_address() {
    let cli = key_client();
    for bad in [
        &b"not-an-ip"[..],
        b"1.2.3",
        b"1.2.3.4.5",
        b"1.2.3.256",
        b"01.2.3.4",
        b"1.2.3.4 ",
        b"",
    ] {
        let r = cli.update_dns_start(b"Z1", b"a.example.com", bad);
        assert!(matches!(r, Err(Error::InvalidAddress)), "accepted {:?}", bad);
    }
}

#[test]
fn start_accepts_edge_addresses() {
    let cli = key_client();
    let (sess, _) = cli.update_dns_start(b"Z1", b"d", b"0.0.0.0").unwrap();
    assert_eq!(sess.ip, Ipv4Addr::new(0, 0, 0, 0));
    let (sess, _) = cli.update_dns_start(b"Z1", b"d", b"255.255.255.255").unwrap();
    assert_eq!(sess.ip, Ipv4Addr::new(255, 255, 255, 255));
}

// The scenario of an update that is needed: the provider holds one
// address record with another address, so an update request for exactly
// that record is issued.
#[test]
fn scenario_update_needed() {
    let cli = key_client();
    let (sess, _) = cli
        .update_dns_start(b"Z1", b"a.example.com", b"5.6.7.8")
        .unwrap();
    let body = br#"{"result":[{"name":"a.example.com","ttl":300,"modified_on":"2023-01-01T00:00:00Z","created_on":"2023-01-01T00:00:00Z","proxiable":true,"type":"A","content":"1.2.3.4","id":"r1","proxied":false}],"result_info":{"page":1},"messages":[],"errors":[]}"#;
    let r = cli.update_dns_after_list(&sess, true, body).unwrap();
    let req = r.expect("an update request should be issued");
    assert!(matches!(req.method, HttpMethod::Put));
    assert_eq!(
        req.url,
        b"https://api.cloudflare.com/client/v4/zones/Z1/dns_records/r1".to_vec()
    );
    assert_eq!(
        req.body.unwrap(),
        br#"{"ttl":60,"name":"a.example.com","type":"A","content":"5.6.7.8"}"#.to_vec()
    );
}

// The scenario of a record that is already correct: no update request.
#[test]
fn scenario_already_correct() {
    let cli = key_client();
    let (sess, _) = cli
        .update_dns_start(b"Z1", b"a.example.com", b"1.2.3.4")
        .unwrap();
    let body = br#"{"result":[{"name":"a.example.com","ttl":300,"modified_on":"2023-01-01T00:00:00Z","created_on":"2023-01-01T00:00:00Z","proxiable":true,"type":"A","content":"1.2.3.4","id":"r1","proxied":false}],"messages":[],"errors":[]}"#;
    let r = cli.update_dns_after_list(&sess, true, body).unwrap();
    assert!(r.is_none());
}

// The scenario of an empty listing: `RecordNotFound`, not a crash and not
// another error kind.
#[test]
fn scenario_not_found() {
    let cli = key_client();
    let (sess, _) = cli
        .update_dns_start(b"Z1", b"a.example.com", b"5.6.7.8")
        .unwrap();
    let body = br#"{"result":[],"messages":[],"errors":[]}"#;
    let r = cli.update_dns_after_list(&sess, true, body);
    assert!(matches!(r, Err(Error::RecordNotFound)));
}

// A listing holding only other record kinds or other names is also
// `RecordNotFound`.
#[test]
fn scenario_no_match_kinds_or_names() {
    let cli = key_client();
    let (sess, _) = cli
        .update_dns_start(b"Z1", b"a.example.com", b"5.6.7.8")
        .unwrap();
    let body = br#"{"result":[{"name":"a.example.com","ttl":300,"modified_on":"m","created_on":"c","proxiable":true,"type":"TXT","content":"hello","id":"r2","proxied":false},{"name":"b.example.com","ttl":300,"modified_on":"m","created_on":"c","proxiable":true,"type":"A","content":"9.9.9.9","id":"r3","proxied":false}],"messages":[],"errors":[]}"#;
    let r = cli.update_dns_after_list(&sess, true, body);
    assert!(matches!(r, Err(Error::RecordNotFound)));
}

// The tail-first scan: of two address records for the same name, the one
// nearer the end of the listing wins.
#[test]
fn tail_first_scan_order() {
    let cli = key_client();
    let (sess, _) = cli
        .update_dns_start(b"Z1", b"a.example.com", b"5.6.7.8")
        .unwrap();
    let body = br#"{"result":[{"name":"a.example.com","ttl":300,"modified_on":"m","created_on":"c","proxiable":true,"type":"A","content":"1.1.1.1","id":"first","proxied":false},{"name":"a.example.com","ttl":300,"modified_on":"m","created_on":"c","proxiable":true,"type":"A","content":"2.2.2.2","id":"second","proxied":false}],"messages":[],"errors":[]}"#;
    let req = cli.update_dns_after_list(&sess, true, body).unwrap().unwrap();
    assert_eq!(
        req.url,
        b"https://api.cloudflare.com/client/v4/zones/Z1/dns_records/second".to_vec()
    );
}

// The scenario of a provider error: the structured error is surfaced with
// its exact code and message.
#[test]
fn scenario_provider_error() {
    let cli = key_client();
    let body = br#"{"errors":[{"code":9003,"message":"Invalid zone"}]}"#;
    let r = cli.update_dns_after_update(false, body);
    match r {
        Err(Error::ApiError { code, message }) => {
            assert_eq!(code, 9003);
            assert_eq!(message, b"Invalid zone".to_vec());
        }
        other => panic!("unexpected outcome: {:?}", other.map(|_| ()).map_err(|e| e.message())),
    }
    let e = cli.update_dns_after_update(false, body).unwrap_err();
    assert_eq!(e.message(), b"Error 9003: Invalid zone".to_vec());
}

// Of several provider errors, the last in the list is surfaced.
#[test]
fn provider_error_last_wins() {
    let cli = key_client();
    let body =
        br#"{"errors":[{"code":1,"message":"first"},{"code":2,"message":"second"}],"extra":null}"#;
    match cli.update_dns_after_update(false, body) {
        Err(Error::ApiError { code, message }) => {
            assert_eq!(code, 2);
            assert_eq!(message, b"second".to_vec());
        }
        _ => panic!("expected a structured error"),
    }
}

// An empty error list yields the generic error.
#[test]
fn provider_error_empty_list() {
    let cli = key_client();
    let body = br#"{"errors":[]}"#;
    let r = cli.update_dns_after_update(false, body);
    assert!(matches!(r, Err(Error::ApiErrorGeneric)));
    assert_eq!(Error::ApiErrorGeneric.message(), b"api error".to_vec());
}

// A body that does not decode is a transport error, on both paths.
#[test]
fn garbage_bodies_are_transport_errors() {
    let cli = key_client();
    let (sess, _) = cli
        .update_dns_start(b"Z1", b"a.example.com", b"5.6.7.8")
        .unwrap();
    assert!(matches!(
        cli.update_dns_after_list(&sess, true, b"not json"),
        Err(Error::Transport)
    ));
    assert!(matches!(
        cli.update_dns_after_update(true, b"{\"result\":"),
        Err(Error::Transport)
    ));
    assert!(matches!(
        cli.update_dns_after_update(false, b"<html>oops</html>"),
        Err(Error::Transport)
    ));
}

// A successful update returns the provider's echoed record.
#[test]
fn update_success_returns_record() {
    let cli = key_client();
    let body = br#"{"result":{"name":"a.example.com","ttl":60,"modified_on":"m","created_on":"c","proxiable":true,"type":"A","content":"5.6.7.8","id":"r1","proxied":false},"messages":[],"errors":[]}"#;
    let rec = cli.update_dns_after_update(true, body).unwrap();
    assert_eq!(rec.name, b"a.example.com".to_vec());
    assert_eq!(rec.ttl, 60);
    assert_eq!(rec.id, b"r1".to_vec());
}

// Fields in any order and unknown fields skipped, as the provider may
// send them.
#[test]
fn list_parse_tolerates_order_and_extras() {
    let cli = key_client();
    let (sess, _) = cli
        .update_dns_start(b"Z1", b"a.example.com", b"1.2.3.4")
        .unwrap();
    let body = br#" {"messages":[{"note":true}],"errors":[],"extra":{"deep":[1,2,{"x":"]"}]},"result":[{"id":"r1","content":"1.2.3.4","type":"A","proxied":false,"proxiable":true,"created_on":"c","modified_on":"m","ttl":1,"name":"a.example.com","zone_id":"Z1","locked":false}]} "#;
    let r = cli.update_dns_after_list(&sess, true, body).unwrap();
    assert!(r.is_none());
}

#[test]
fn token_and_domain_validation() {
    assert!(cf_ddns::auth::token_matches(b"tok-123", b"tok-123"));
    assert!(!cf_ddns::auth::token_matches(b"tok-123", b"tok-124"));
    assert!(!cf_ddns::auth::token_matches(b"tok-123", b"tok-1234"));
    assert!(!cf_ddns::auth::token_matches(b"tok-123", b""));
    assert!(cf_ddns::auth::validate_domain(b"a.example.com"));
    assert!(cf_ddns::auth::validate_domain(b"abc123.DE"));
    assert!(!cf_ddns::auth::validate_domain(b"a_b.example.com"));
    assert!(!cf_ddns::auth::validate_domain(b"a-b.example.com"));
    assert!(!cf_ddns::auth::validate_domain(
        b"aaaaaaaaaaaaaaaaaaaaaaaaaaaaaaaaaaaaaaaaaaaaaaaaaaaaaaaaaaaa.com.de"
    ));
}

#[test]
fn api_error_equality_is_code_and_message() {
    let a = ApiError { code: 1, message: b"m".to_vec() };
    let b = ApiError { code: 1, message: b"m".to_vec() };
    let c = ApiError { code: 2, message: b"m".to_vec() };
    let d = ApiError { code: 1, message: b"n".to_vec() };
    assert_eq!(a, b);
    assert_ne!(a, c);
    assert_ne!(a, d);
    let ea = ApiErrors { errors: vec![a] };
    let eb = ApiErrors { errors: vec![b] };
    let ec = ApiErrors { errors: vec![c] };
    assert_eq!(ea, eb);
    assert_ne!(ea, ec);
    assert_ne!(ea, ApiErrors { errors: vec![] });
}

#[test]
fn error_messages_are_exact() {
    assert_eq!(Error::InvalidAddress.message(), b"invalid IPv4 address".to_vec());
    assert_eq!(Error::RecordNotFound.message(), b"no record found".to_vec());
    assert_eq!(Error::Transport.message(), b"transport error".to_vec());
    assert_eq!(
        Error::ApiError { code: 10000, message: b"Authentication error".to_vec() }.message(),
        b"Error 10000: Authentication error".to_vec()
    );
}

#[test]
fn bearer_and_service_headers() {
    let cli = Client::new_with_token(b"tok".to_vec());
    let (_, req) = cli.update_dns_start(b"Z", b"d", b"1.2.3.4").unwrap();
    assert_eq!(req.headers.len(), 1);
    assert_eq!(req.headers[0].0, b"Authorization".to_vec());
    assert_eq!(req.headers[0].1, b"Bearer tok".to_vec());
}
