use cf_ddns::cf_base::ApiError;
use cf_ddns::cf_base::ApiErrors;
use cf_ddns::cf_base::ApiSuccess;
use cf_ddns::cf_base::Credentials;
use cf_ddns::cf_base::DnsContent;
use cf_ddns::cf_base::DnsRecord;
use cf_ddns::cf_base::Ipv4Addr;
use cf_ddns::cf_base::ListDnsRecordsParams;
use cf_ddns::cf_base::SearchMatch;
use cf_ddns::cf_base::UpdateDnsRecordParams;
use cf_ddns::decode::parse_api_errors;
use cf_ddns::decode::parse_ipv4_text;
use cf_ddns::decode::parse_record_envelope;
use cf_ddns::encode::errors_to_json;
use cf_ddns::encode::list_query;
use cf_ddns::encode::record_envelope_to_json;
use cf_ddns::encode::update_body;

// Each credential variant emits exactly the documented headers.
#[test]
fn headers_per_variant() {
    let c = Credentials::UserAuthKey {
        email: b"user@example.com".to_vec(),
        key: b"k1".to_vec(),
    };
    let hs = c.headers();
    assert_eq!(hs.len(), 2);
    assert_eq!(hs[0], (b"X-Auth-Email".to_vec(), b"user@example.com".to_vec()));
    assert_eq!(hs[1], (b"X-Auth-Key".to_vec(), b"k1".to_vec()));

    let c = Credentials::UserAuthToken { token: b"abc".to_vec() };
    let hs = c.headers();
    assert_eq!(hs.len(), 1);
    assert_eq!(hs[0], (b"Authorization".to_vec(), b"Bearer abc".to_vec()));

    let c = Credentials::Service { key: b"sk".to_vec() };
    let hs = c.headers();
    assert_eq!(hs.len(), 1);
    assert_eq!(hs[0], (b"X-Auth-User-Service-Key".to_vec(), b"sk".to_vec()));
}

// With every optional field unset, the serialized query holds none of the
// keys, not even with empty values.
#[test]
fn all_unset_query_is_empty() {
    let p = ListDnsRecordsParams::default();
    assert_eq!(list_query(&p), Vec::<u8>::new());
}

#[test]
fn query_holds_exactly_present_fields() {
    let mut p = ListDnsRecordsParams::default();
    p.name = Some(b"a.example.com".to_vec());
    p.search_match = Some(SearchMatch::Any);
    assert_eq!(list_query(&p), b"name=a.example.com&match=any".to_vec());
    p.page = Some(2);
    p.per_page = Some(50);
    assert_eq!(
        list_query(&p),
        b"name=a.example.com&page=2&per_page=50&match=any".to_vec()
    );
}

// With ttl and proxied unset, the update body holds neither key.
#[test]
fn unset_fields_omitted_from_update_body() {
    let p = UpdateDnsRecordParams {
        ttl: None,
        proxied: None,
        name: b"a.example.com".to_vec(),
        content: DnsContent::A { content: Ipv4Addr::new(1, 2, 3, 4) },
    };
    assert_eq!(
        update_body(&p),
        br#"{"name":"a.example.com","type":"A","content":"1.2.3.4"}"#.to_vec()
    );
}

#[test]
fn update_body_with_all_fields() {
    let p = UpdateDnsRecordParams {
        ttl: Some(1),
        proxied: Some(true),
        name: b"a.example.com".to_vec(),
        content: DnsContent::MX { content: b"mail.example.com".to_vec(), priority: 10 },
    };
    assert_eq!(
        update_body(&p),
        br#"{"ttl":1,"proxied":true,"name":"a.example.com","type":"MX","content":"mail.example.com","priority":10}"#.to_vec()
    );
}

// The emitted update body is real JSON: an independent reader agrees on
// every field.
#[test]
fn update_body_cross_checked_against_independent_reader() {
    let p = UpdateDnsRecordParams {
        ttl: Some(60),
        proxied: None,
        name: b"a.b\"c\\d".to_vec(),
        content: DnsContent::A { content: Ipv4Addr::new(5, 6, 7, 8) },
    };
    let body = update_body(&p);
    let v: serde_json::Value = serde_json::from_slice(&body).unwrap();
    assert_eq!(v.get("ttl").unwrap().as_u64().unwrap(), 60);
    assert!(v.get("proxied").is_none());
    assert_eq!(v.get("name").unwrap().as_str().unwrap(), "a.b\"c\\d");
    assert_eq!(v.get("type").unwrap().as_str().unwrap(), "A");
    assert_eq!(v.get("content").unwrap().as_str().unwrap(), "5.6.7.8");
}

// A failure wrapper survives a round trip, equal under the documented
// rule: errors compared by code and message.
#[test]
fn errors_round_trip() {
    let d = ApiErrors {
        errors: vec![
            ApiError { code: 9003, message: b"Invalid zone".to_vec() },
            ApiError { code: 10000, message: b"with \"quotes\" and \\slashes\\".to_vec() },
            ApiError { code: 0, message: b"".to_vec() },
        ],
    };
    let json = errors_to_json(&d);
    let back = parse_api_errors(&json).expect("round trip must parse");
    assert_eq!(d, back);
}

#[test]
fn empty_errors_round_trip() {
    let d = ApiErrors { errors: vec![] };
    let json = errors_to_json(&d);
    assert_eq!(json, br#"{"errors":[]}"#.to_vec());
    let back = parse_api_errors(&json).unwrap();
    assert_eq!(d, back);
}

// A record envelope survives a round trip: the result and the errors come
// back equal, and the opaque messages text is carried verbatim.
#[test]
fn record_envelope_round_trip() {
    let env = ApiSuccess {
        result: DnsRecord {
            name: b"a.example.com".to_vec(),
            ttl: 60,
            modified_on: b"2023-01-01T00:00:00Z".to_vec(),
            created_on: b"2022-12-31T23:59:59Z".to_vec(),
            proxiable: true,
            content: DnsContent::A { content: Ipv4Addr::new(5, 6, 7, 8) },
            id: b"r1".to_vec(),
            proxied: false,
        },
        result_info: None,
        messages: b"[]".to_vec(),
        errors: vec![ApiError { code: 1, message: b"note".to_vec() }],
    };
    let json = record_envelope_to_json(&env);
    let back = parse_record_envelope(&json).expect("round trip must parse");
    assert_eq!(back.result.name, env.result.name);
    assert_eq!(back.result.ttl, env.result.ttl);
    assert_eq!(back.result.modified_on, env.result.modified_on);
    assert_eq!(back.result.created_on, env.result.created_on);
    assert_eq!(back.result.proxiable, env.result.proxiable);
    assert_eq!(back.result.id, env.result.id);
    assert_eq!(back.result.proxied, env.result.proxied);
    match (&back.result.content, &env.result.content) {
        (DnsContent::A { content: a }, DnsContent::A { content: b }) => assert_eq!(a, b),
        _ => panic!("content kind changed in the round trip"),
    }
    assert_eq!(back.messages, env.messages);
    assert_eq!(
        ApiErrors { errors: back.errors },
        ApiErrors { errors: env.errors }
    );
}

// Envelopes for every content kind survive the round trip.
#[test]
fn envelope_round_trip_other_kinds() {
    let kinds = vec![
        DnsContent::AAAA { content: b"2001:db8::1".to_vec() },
        DnsContent::CNAME { content: b"target.example.com".to_vec() },
        DnsContent::NS { content: b"ns1.example.com".to_vec() },
        DnsContent::MX { content: b"mail.example.com".to_vec(), priority: 5 },
        DnsContent::TXT { content: b"v=spf1 -all".to_vec() },
        DnsContent::SRV { content: b"0 5 5060 sip.example.com".to_vec() },
    ];
    for content in kinds {
        let env = ApiSuccess {
            result: DnsRecord {
                name: b"x.example.com".to_vec(),
                ttl: 1,
                modified_on: b"m".to_vec(),
                created_on: b"c".to_vec(),
                proxiable: false,
                content,
                id: b"id9".to_vec(),
                proxied: true,
            },
            result_info: None,
            messages: b"[]".to_vec(),
            errors: vec![],
        };
        let json = record_envelope_to_json(&env);
        let back = parse_record_envelope(&json).expect("round trip must parse");
        assert_eq!(back.result.id, env.result.id);
        let v: serde_json::Value = serde_json::from_slice(&json).unwrap();
        assert!(v.get("result").unwrap().get("type").is_some());
    }
}

#[test]
fn ipv4_text_parsing() {
    let good: Vec<(&[u8], [u8; 4])> = vec![
        (b"0.0.0.0", [0, 0, 0, 0]),
        (b"1.2.3.4", [1, 2, 3, 4]),
        (b"255.255.255.255", [255, 255, 255, 255]),
        (b"10.0.0.1", [10, 0, 0, 1]),
    ];
    for (t, o) in good {
        let ip = parse_ipv4_text(t).expect("should parse");
        assert_eq!([ip.a, ip.b, ip.c, ip.d], o);
    }
    // what `str::parse::<Ipv4Addr>` also rejects: wrong arity, out-of-range
    // octets, leading zeros, stray bytes
    let bad: Vec<&[u8]> = vec![
        b"10.0.00.1",
        b"256.1.1.1",
        b"1.2.3",
        b"1.2.3.4.5",
        b"a.b.c.d",
        b"1..2.3",
        b" 1.2.3.4",
        b"1.2.3.4\n",
        b"01.2.3.4",
        b"1.2.3.",
        b".1.2.3.4",
        b"",
    ];
    for t in bad {
        assert!(parse_ipv4_text(t).is_none(), "accepted {:?}", t);
    }
}

// String escapes in provider responses are decoded as an independent
// reader decodes them.
#[test]
fn string_unescaping_matches_independent_reader() {
    let body = r#"{"errors":[{"code":7,"message":"a\"b\\c\/d\n\tA\u00e9\u20ac"}]}"#.as_bytes();
    let d = parse_api_errors(body).unwrap();
    let v: serde_json::Value = serde_json::from_slice(body).unwrap();
    let expected = v["errors"][0]["message"].as_str().unwrap();
    assert_eq!(d.errors[0].message, expected.as_bytes().to_vec());
    assert_eq!(d.errors[0].code, 7);
}

#[test]
fn malformed_documents_are_refused() {
    let bad: Vec<&[u8]> = vec![
        b"",
        b"{",
        b"[]",
        br#"{"errors":}"#,
        br#"{"errors":[{"code":1}]}"#,
        br#"{"errors":[{"message":"m"}]}"#,
        br#"{"errors":[{"code":01,"message":"m"}]}"#,
        br#"{"errors":[{"code":1,"message":"m"},]}"#,
        br#"{"errors":[{"code":1,"message":"m"}]} trailing"#,
        br#"{"errors":[{"code":99999,"message":"too big"}]}"#,
    ];
    for b in bad {
        assert!(parse_api_errors(b).is_none(), "accepted {:?}", b);
    }
}
