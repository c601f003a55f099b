//! Properties of the reconciliation logic, stated once for all inputs and
//! proved against the same specification functions the client's contracts
//! use.

use vstd::prelude::*;

use crate::cf::ErrorV;
use crate::cf::HttpRequestV;
use crate::cf::record_matches;
use crate::cf::spec_decide;
use crate::cf::spec_find_a_record;
use crate::cf_base::CredentialsV;
use crate::cf_base::DnsContentV;
use crate::cf_base::DnsRecordV;
use crate::cf_base::Ipv4Addr;
use crate::cf_base::ListDnsRecordsParamsV;
use crate::cf_base::UpdateDnsRecordParamsV;
use crate::encode::json_string;
use crate::encode::spec_list_query;
use crate::encode::spec_update_body;
use crate::encode::content_text;
use crate::encode::priority_of;
use crate::encode::tag_of;
use crate::decode::spec_err_fields;
use crate::decode::spec_jstr;
use crate::decode::spec_ws;
use crate::decode::spec_num_end;
use crate::decode::spec_parse_u16_num;
use crate::encode::esc_byte;
use crate::encode::hex_digit;
use crate::encode::json_escape;
use crate::encode::spec_error_json;
use crate::encode::spec_errors_array;
use crate::encode::spec_errors_json;
use crate::cf_base::ApiErrorV;
use crate::cf_base::ApiErrorsV;
use crate::text::dec_of;
use crate::text::dec_val;
use crate::text::is_digit;
use crate::text::ascii_of;

verus! {

/// The provider's state after it applies an address update: every record
/// carrying the updated record's identifier now holds the new address as
/// its content; every other record is untouched.
pub open spec fn spec_apply_update(rs: Seq<DnsRecordV>, id: Seq<u8>, ip: Ipv4Addr) -> Seq<
    DnsRecordV,
> {
    Seq::new(
        rs.len(),
        |i: int|
            if rs[i].id == id {
                DnsRecordV { content: DnsContentV::A { content: ip }, ..rs[i] }
            } else {
                rs[i]
            },
    )
}

/// After the found record is updated to the desired address, the record
/// the scan finds holds exactly that address.
pub proof fn lemma_find_after_update(rs: Seq<DnsRecordV>, domain: Seq<u8>, ip: Ipv4Addr, r0: DnsRecordV)
    requires
        spec_find_a_record(rs, domain) == Option::Some(r0),
    ensures
        spec_find_a_record(spec_apply_update(rs, r0.id, ip), domain) matches Option::Some(r1)
            && r1.content == (DnsContentV::A { content: ip }),
    decreases rs.len(),
{
    let rs2 = spec_apply_update(rs, r0.id, ip);
    let last = rs.last();
    assert(rs2.len() == rs.len());
    assert(rs2.last() == (if last.id == r0.id {
        DnsRecordV { content: DnsContentV::A { content: ip }, ..last }
    } else {
        last
    }));
    if record_matches(last, domain) {
        assert(r0 == last);
        assert(record_matches(rs2.last(), domain));
    } else {
        if last.id == r0.id && last.name == domain {
            assert(record_matches(rs2.last(), domain));
            assert(rs2.last().content == (DnsContentV::A { content: ip }));
        } else {
            assert(!record_matches(rs2.last(), domain));
            assert(spec_find_a_record(rs, domain) == spec_find_a_record(rs.drop_last(), domain));
            lemma_find_after_update(rs.drop_last(), domain, ip, r0);
            assert(rs2.drop_last() =~= spec_apply_update(rs.drop_last(), r0.id, ip));
            assert(spec_find_a_record(rs2, domain) == spec_find_a_record(rs2.drop_last(), domain));
        }
    }
}

/// Idempotence of the update operation: once the provider has applied the
/// update built for the found record, a second run of the same operation
/// decides that nothing needs to be mutated, so two runs in sequence issue
/// at most one update in total.
pub proof fn lemma_update_dns_idempotent(
    c: CredentialsV,
    zone_id: Seq<u8>,
    domain: Seq<u8>,
    ip: Ipv4Addr,
    rs: Seq<DnsRecordV>,
    r0: DnsRecordV,
)
    requires
        spec_find_a_record(rs, domain) == Option::Some(r0),
    ensures
        spec_decide(c, zone_id, domain, ip, spec_apply_update(rs, r0.id, ip)) == Result::<
            Option<HttpRequestV>,
            ErrorV,
        >::Ok(Option::<HttpRequestV>::None),
{
    lemma_find_after_update(rs, domain, ip, r0);
}

/// A second run over an already-correct listing decides that nothing
/// needs to be mutated.
pub proof fn lemma_already_correct_no_update(
    c: CredentialsV,
    zone_id: Seq<u8>,
    domain: Seq<u8>,
    ip: Ipv4Addr,
    rs: Seq<DnsRecordV>,
    r0: DnsRecordV,
)
    requires
        spec_find_a_record(rs, domain) == Option::Some(r0),
        r0.content == (DnsContentV::A { content: ip }),
    ensures
        spec_decide(c, zone_id, domain, ip, rs) == Result::<
            Option<HttpRequestV>,
            ErrorV,
        >::Ok(Option::<HttpRequestV>::None),
{
}

/// A listing without any address record for the domain finds nothing.
pub proof fn lemma_find_none(rs: Seq<DnsRecordV>, domain: Seq<u8>)
    requires
        forall|i: int| 0 <= i < rs.len() ==> !record_matches(#[trigger] rs[i], domain),
    ensures
        spec_find_a_record(rs, domain) is None,
    decreases rs.len(),
{
    if rs.len() > 0 {
        assert(!record_matches(rs[rs.len() - 1], domain));
        lemma_find_none(rs.drop_last(), domain);
    }
}

/// A listing holding only non-address records, or records with other
/// names, yields exactly `RecordNotFound`: no other error, no panic.
pub proof fn lemma_no_match_is_record_not_found(
    c: CredentialsV,
    zone_id: Seq<u8>,
    domain: Seq<u8>,
    ip: Ipv4Addr,
    rs: Seq<DnsRecordV>,
)
    requires
        forall|i: int| 0 <= i < rs.len() ==> !record_matches(#[trigger] rs[i], domain),
    ensures
        spec_decide(c, zone_id, domain, ip, rs) == Result::<Option<HttpRequestV>, ErrorV>::Err(
            ErrorV::RecordNotFound,
        ),
{
    lemma_find_none(rs, domain);
}

/// A list query with every optional field unset serializes to the empty
/// query string: no key of any absent field is emitted.
pub proof fn lemma_all_unset_query_is_empty()
    ensures
        spec_list_query(
            ListDnsRecordsParamsV {
                record_type: Option::None,
                name: Option::None,
                page: Option::None,
                per_page: Option::None,
                order: Option::None,
                direction: Option::None,
                search_match: Option::None,
            },
        ) == Seq::<u8>::empty(),
{
    let p = ListDnsRecordsParamsV {
        record_type: Option::None,
        name: Option::None,
        page: Option::None,
        per_page: Option::None,
        order: Option::None,
        direction: Option::None,
        search_match: Option::None,
    };
    assert(crate::encode::spec_list_query_amp(p) =~= Seq::<u8>::empty());
}

/// An update body whose optional fields are all unset holds exactly the
/// name and the content fields: no `ttl` key, no `proxied` key.
pub proof fn lemma_unset_fields_omitted_from_update_body(p: UpdateDnsRecordParamsV)
    requires
        p.ttl is None,
        p.proxied is None,
    ensures
        spec_update_body(p) == seq![123u8] + ascii_of("\"name\":"@) + json_string(p.name) + seq![
            44u8,
        ] + ascii_of("\"type\":"@) + json_string(tag_of(p.content)) + seq![44u8] + ascii_of(
            "\"content\":"@,
        ) + json_string(content_text(p.content)) + (match priority_of(p.content) {
            Option::Some(pr) => seq![44u8] + ascii_of("\"priority\":"@) + crate::text::dec_of(
                pr as nat,
            ),
            Option::None => Seq::<u8>::empty(),
        }) + seq![125u8],
{
    assert(spec_update_body(p) =~= seq![123u8] + ascii_of("\"name\":"@) + json_string(p.name)
        + seq![44u8] + ascii_of("\"type\":"@) + json_string(tag_of(p.content)) + seq![44u8]
        + ascii_of("\"content\":"@) + json_string(content_text(p.content)) + (match priority_of(
        p.content,
    ) {
        Option::Some(pr) => seq![44u8] + ascii_of("\"priority\":"@) + crate::text::dec_of(
            pr as nat,
        ),
        Option::None => Seq::<u8>::empty(),
    }) + seq![125u8]);
}


/// Escaping distributes over concatenation.
pub proof fn lemma_escape_app(a: Seq<u8>, b: Seq<u8>)
    ensures
        json_escape(a + b) == json_escape(a) + json_escape(b),
    decreases b.len(),
{
    if b.len() == 0 {
        assert(a + b =~= a);
        assert(json_escape(a) + json_escape(b) =~= json_escape(a));
    } else {
        lemma_escape_app(a, b.drop_last());
        assert((a + b).drop_last() =~= a + b.drop_last());
        assert((a + b).last() == b.last());
        assert(json_escape(a) + json_escape(b.drop_last()) + esc_byte(b.last()) =~= json_escape(a)
            + json_escape(b));
    }
}

/// Escaping a string is escaping its first byte and then the rest.
pub proof fn lemma_escape_front(t: Seq<u8>)
    requires
        t.len() >= 1,
    ensures
        json_escape(t) == esc_byte(t[0]) + json_escape(t.subrange(1, t.len() as int)),
{
    let rest = t.subrange(1, t.len() as int);
    assert(t =~= seq![t[0]] + rest);
    lemma_escape_app(seq![t[0]], rest);
    assert(seq![t[0]].drop_last() =~= Seq::<u8>::empty());
    assert(json_escape(Seq::<u8>::empty()) =~= Seq::<u8>::empty());
    assert(json_escape(seq![t[0]]) == json_escape(seq![t[0]].drop_last()) + esc_byte(t[0]));
    assert(json_escape(seq![t[0]]) =~= esc_byte(t[0]));
}

/// Reading an escaped string gives back the original: where the input
/// holds `json_escape(t)` followed by a closing quote, the string reader
/// returns exactly `t` and stops just after the quote.
#[verifier::rlimit(100)]
pub proof fn lemma_jstr_unescape(s: Seq<u8>, i: int, t: Seq<u8>, acc: Seq<u8>)
    requires
        0 <= i,
        i + json_escape(t).len() < s.len(),
        s.subrange(i, i + json_escape(t).len()) == json_escape(t),
        s[i + json_escape(t).len()] == 34,
    ensures
        spec_jstr(s, i, acc) == Option::Some((acc + t, i + json_escape(t).len() + 1)),
    decreases t.len(),
{
    let esc = json_escape(t);
    assert(forall|k: int|
        0 <= k < esc.len() ==> s[i + k] == #[trigger] esc[k]) by {
        assert(forall|k: int|
            0 <= k < esc.len() ==> #[trigger] esc[k] == s.subrange(i, i + esc.len())[k]);
    }
    if t.len() == 0 {
        assert(esc.len() == 0);
        assert(s[i] == 34);
        assert(acc + t =~= acc);
    } else {
        lemma_escape_front(t);
        let b = t[0];
        let rest = t.subrange(1, t.len() as int);
        let e0 = esc_byte(b);
        let esc_rest = json_escape(rest);
        assert(esc == e0 + esc_rest);
        assert(forall|k: int| 0 <= k < e0.len() ==> (e0 + esc_rest)[k] == #[trigger] e0[k]);
        let i2 = i + e0.len();
        assert(s.subrange(i2, i2 + esc_rest.len()) =~= esc_rest) by {
            assert(forall|k: int|
                0 <= k < esc_rest.len() ==> (e0 + esc_rest)[e0.len() + k] == #[trigger] esc_rest[k]);
        }
        assert(s[i2 + esc_rest.len()] == 34);
        assert(acc + seq![b] + rest =~= acc + t);
        if b == 34 || b == 92 {
            assert(s[i] == 92 && s[i + 1] == b);
            lemma_jstr_unescape(s, i + 2, rest, acc.push(b));
            assert(acc.push(b) =~= acc + seq![b]);
            assert(acc.push(b) + rest =~= acc + t);
        } else if b < 32 {
            assert(e0 == seq![92u8, 117u8, 48u8, 48u8, hex_digit(b / 16), hex_digit(b % 16)]);
            assert(s[i] == 92 && s[i + 1] == 117);
            assert(s[i + 2] == 48 && s[i + 3] == 48);
            assert(s[i + 4] == hex_digit(b / 16) && s[i + 5] == hex_digit(b % 16));
            assert(crate::decode::is_hex(hex_digit(b / 16)));
            assert(crate::decode::is_hex(hex_digit(b % 16)));
            assert(crate::decode::hex_val(48) == 0);
            assert(crate::decode::hex_val(hex_digit(b / 16)) == b / 16);
            assert(crate::decode::hex_val(hex_digit(b % 16)) == b % 16);
            let v = crate::decode::hex_val(s[i + 2]) * 4096 + crate::decode::hex_val(s[i + 3])
                * 256 + crate::decode::hex_val(s[i + 4]) * 16 + crate::decode::hex_val(s[i + 5]);
            vstd::arithmetic::div_mod::lemma_fundamental_div_mod(b as int, 16);
            assert(v == b);
            assert(crate::decode::utf8_of(v) =~= seq![b]);
            lemma_jstr_unescape(s, i + 6, rest, acc + seq![b]);
            assert(spec_jstr(s, i, acc) == spec_jstr(s, i + 6, acc + crate::decode::utf8_of(v)));
            assert(acc + crate::decode::utf8_of(v) =~= acc + seq![b]);
            assert(acc + seq![b] + rest =~= acc + t);
        } else {
            assert(e0 == seq![b]);
            assert(esc[0] == e0[0]);
            assert(s[i] == esc[0]);
            assert(s[i] == b);
            lemma_jstr_unescape(s, i + 1, rest, acc.push(b));
            assert(acc.push(b) =~= acc + seq![b]);
            assert(acc.push(b) + rest =~= acc + t);
        }
    }
}

/// Reading a digit run left by the formatter gives back the number:
/// where the input holds the digits of `n` followed by a non-digit, the
/// number reader returns exactly `n`.
pub proof fn lemma_parse_u16_at(s: Seq<u8>, i: int, n: u16)
    requires
        0 <= i,
        i + dec_of(n as nat).len() < s.len(),
        s.subrange(i, i + dec_of(n as nat).len()) == dec_of(n as nat),
        !is_digit(s[i + dec_of(n as nat).len()]),
    ensures
        spec_parse_u16_num(s, i) == Option::Some((n, i + dec_of(n as nat).len())),
{
    let d = dec_of(n as nat);
    crate::text::lemma_dec_of_digits(n as nat);
    crate::text::lemma_dec_val_of_dec_of(n as nat);
    assert(forall|k: int|
        0 <= k < d.len() ==> s[i + k] == #[trigger] d[k]) by {
        assert(forall|k: int|
            0 <= k < d.len() ==> #[trigger] d[k] == s.subrange(i, i + d.len())[k]);
    }
    assert forall|k: int| i <= k < i + d.len() implies is_digit(#[trigger] s[k]) by {
        let m = k - i;
        assert(s[i + m] == d[m]);
        assert(is_digit(d[m]));
    }
    lemma_num_end_run(s, i, i + d.len());
    assert(s.subrange(i, i + d.len()) == d);
    if d.len() > 1 {
        assert(s[i] == d[0]);
        assert(d[0] != 48);
    }
    assert(dec_val(s.subrange(i, i + d.len())) == n as nat);
}

/// A run of digits bounded by a non-digit ends exactly at its bound.
pub proof fn lemma_num_end_run(s: Seq<u8>, i: int, j: int)
    requires
        0 <= i <= j <= s.len(),
        forall|k: int| i <= k < j ==> is_digit(#[trigger] s[k]),
        j == s.len() || !is_digit(s[j]),
    ensures
        spec_num_end(s, i) == j,
    decreases j - i,
{
    if i < j {
        lemma_num_end_run(s, i + 1, j);
    }
}


/// Whether every byte of a string is left unchanged by escaping.
pub open spec fn is_plain(t: Seq<u8>) -> bool {
    forall|k: int| 0 <= k < t.len() ==> 32 <= #[trigger] t[k] && t[k] != 34 && t[k] != 92
}

/// Escaping leaves a plain string unchanged.
pub proof fn lemma_escape_plain(t: Seq<u8>)
    requires
        is_plain(t),
    ensures
        json_escape(t) == t,
    decreases t.len(),
{
    if t.len() == 0 {
        assert(json_escape(t) =~= t);
    } else {
        assert(32 <= t[t.len() - 1] && t[t.len() - 1] != 34 && t[t.len() - 1] != 92);
        lemma_escape_plain(t.drop_last());
        assert(json_escape(t) =~= t.drop_last() + seq![t.last()]);
        assert(t.drop_last() + seq![t.last()] =~= t);
    }
}

/// Reading an error object left by the serializer gives back the error:
/// the fields reader, entered just after the opening brace, returns the
/// error and stops just after the closing brace.
#[verifier::rlimit(100)]
pub proof fn lemma_err_obj_round_trip(s: Seq<u8>, o: int, e: ApiErrorV)
    requires
        0 <= o,
        o + spec_error_json(e).len() <= s.len(),
        s.subrange(o, o + spec_error_json(e).len()) == spec_error_json(e),
    ensures
        spec_err_fields(s, o + 1, true, Option::None, Option::None) == Option::Some(
            (e, o + spec_error_json(e).len()),
        ),
{
    reveal_strlit("{\"code\":");
    reveal_strlit(",\"message\":");
    reveal_strlit("code");
    reveal_strlit("message");
    let c1 = ascii_of("{\"code\":"@);
    let c2 = dec_of(e.code as nat);
    let c3 = ascii_of(",\"message\":"@);
    let esc = json_escape(e.message);
    let ej = spec_error_json(e);
    assert(c1.len() == 8 && c3.len() == 11);
    assert(ej == c1 + c2 + c3 + (seq![34u8] + esc + seq![34u8]) + seq![125u8]);
    crate::text::lemma_dec_of_digits(e.code as nat);
    let dl = c2.len() as int;
    let el = esc.len() as int;
    assert(ej.len() == 22 + dl + el);
    assert(forall|k: int| 0 <= k < ej.len() ==> s[o + k] == #[trigger] ej[k]) by {
        assert(forall|k: int|
            0 <= k < ej.len() ==> #[trigger] ej[k] == s.subrange(o, o + ej.len())[k]);
    }
    // the leading literal and the key "code"
    assert forall|k: int| 0 <= k < 8 implies s[o + k] == #[trigger] c1[k] by {
        assert(s[o + k] == ej[k]);
    }
    assert(c1[0] == 123 && c1[1] == 34 && c1[2] == 99 && c1[3] == 111 && c1[4] == 100 && c1[5]
        == 101 && c1[6] == 34 && c1[7] == 58);
    assert(s[o + 1] == 34 && s[o + 2] == 99 && s[o + 3] == 111 && s[o + 4] == 100 && s[o + 5]
        == 101 && s[o + 6] == 34 && s[o + 7] == 58);
    // the digits of the code
    assert forall|k: int| 0 <= k < dl implies s[o + 8 + k] == #[trigger] c2[k] by {
        assert(s[o + 8 + k] == ej[8 + k]);
    }
    assert(s.subrange(o + 8, o + 8 + dl) =~= c2);
    // the second literal and the key "message"
    let f = o + 8 + dl;
    assert forall|k: int| 0 <= k < 11 implies s[f + k] == #[trigger] c3[k] by {
        assert(s[f + k] == ej[8 + dl + k]);
    }
    assert(c3[0] == 44 && c3[1] == 34 && c3[2] == 109 && c3[3] == 101 && c3[4] == 115 && c3[5]
        == 115 && c3[6] == 97 && c3[7] == 103 && c3[8] == 101 && c3[9] == 34 && c3[10] == 58);
    assert(s[f] == 44 && s[f + 1] == 34 && s[f + 2] == 109 && s[f + 3] == 101 && s[f + 4] == 115
        && s[f + 5] == 115 && s[f + 6] == 97 && s[f + 7] == 103 && s[f + 8] == 101 && s[f + 9]
        == 34 && s[f + 10] == 58);
    // the quoted message and the closing brace
    let e2 = f + 11;
    let js = seq![34u8] + esc + seq![34u8];
    assert(js[0] == 34 && js[1 + el] == 34);
    assert(ej[19 + dl] == js[0] && ej[20 + dl + el] == js[1 + el] && ej[21 + dl + el] == 125);
    assert(s[e2] == 34);
    assert forall|k: int| 0 <= k < el implies s[e2 + 1 + k] == #[trigger] esc[k] by {
        assert(s[e2 + 1 + k] == ej[20 + dl + k]);
        assert(ej[20 + dl + k] == js[1 + k]);
    }
    assert(s.subrange(e2 + 1, e2 + 1 + el) =~= esc);
    assert(s[e2 + 1 + el] == 34);
    assert(s[e2 + 2 + el] == 125);
    // walk the reader through the two fields
    assert(spec_ws(s, o + 1) == o + 1);
    let key1 = ascii_of("code"@);
    assert(is_plain(key1));
    lemma_escape_plain(key1);
    assert(s.subrange(o + 2, o + 6) =~= key1);
    lemma_jstr_unescape(s, o + 2, key1, Seq::empty());
    assert(Seq::empty() + key1 =~= key1);
    assert(spec_ws(s, o + 6) == o + 6);
    assert(spec_ws(s, o + 7) == o + 7);
    assert(is_digit(c2[0]) && s[o + 8] == c2[0]);
    assert(spec_ws(s, o + 8) == o + 8);
    assert(!is_digit(s[o + 8 + dl]));
    lemma_parse_u16_at(s, o + 8, e.code);
    assert(crate::decode::adv(s, o + 1, f) == f);
    assert(spec_err_fields(s, o + 1, true, Option::None, Option::None) == spec_err_fields(
        s,
        f,
        false,
        Option::Some(e.code),
        Option::None,
    ));
    let key2 = ascii_of("message"@);
    assert(is_plain(key2));
    lemma_escape_plain(key2);
    assert(s.subrange(f + 2, f + 9) =~= key2);
    assert(spec_ws(s, f) == f);
    assert(spec_ws(s, f + 1) == f + 1);
    lemma_jstr_unescape(s, f + 2, key2, Seq::empty());
    assert(Seq::empty() + key2 =~= key2);
    assert(spec_ws(s, f + 10) == f + 10);
    assert(spec_ws(s, e2) == e2);
    assert(key2 != ascii_of("code"@));
    lemma_jstr_unescape(s, e2 + 1, e.message, Seq::empty());
    assert(Seq::empty() + e.message =~= e.message);
    let f2 = e2 + 2 + el;
    assert(crate::decode::adv(s, f, f2) == f2);
    assert(spec_err_fields(s, f, false, Option::Some(e.code), Option::None) == spec_err_fields(
        s,
        f2,
        false,
        Option::Some(e.code),
        Option::Some(e.message),
    ));
    assert(spec_ws(s, f2) == f2);
    assert(s[f2] == 125);
    assert(spec_err_fields(s, f2, false, Option::Some(e.code), Option::Some(e.message))
        == Option::Some((ApiErrorV { code: e.code, message: e.message }, f2 + 1)));
    assert(f2 + 1 == o + ej.len());
    assert((ApiErrorV { code: e.code, message: e.message }) == e);
}


/// The element text of a serialized error array: each element's object,
/// with a comma before every element but an unseparated first.
pub open spec fn errs_items(es: Seq<ApiErrorV>, first: bool) -> Seq<u8>
    decreases es.len(),
{
    if es.len() == 0 {
        Seq::empty()
    } else {
        (if first {
            Seq::empty()
        } else {
            seq![44u8]
        }) + spec_error_json(es[0]) + errs_items(es.subrange(1, es.len() as int), false)
    }
}

/// Appending one error to the element text appends a comma and its object.
pub proof fn lemma_items_snoc(es: Seq<ApiErrorV>, e: ApiErrorV, first: bool)
    ensures
        errs_items(es.push(e), first) == errs_items(es, first) + (if es.len() == 0 && first {
            Seq::empty()
        } else {
            seq![44u8]
        }) + spec_error_json(e),
    decreases es.len(),
{
    let full = es.push(e);
    if es.len() == 0 {
        assert(full[0] == e);
        assert(full.subrange(1, full.len() as int) =~= Seq::<ApiErrorV>::empty());
        assert(errs_items(Seq::<ApiErrorV>::empty(), false) == Seq::<u8>::empty());
        assert(errs_items(es, first) == Seq::<u8>::empty());
        assert(errs_items(full, first) =~= errs_items(es, first) + (if first {
            Seq::<u8>::empty()
        } else {
            seq![44u8]
        }) + spec_error_json(e));
    } else {
        assert(full[0] == es[0]);
        assert(full.subrange(1, full.len() as int) =~= es.subrange(1, es.len() as int).push(e));
        lemma_items_snoc(es.subrange(1, es.len() as int), e, false);
        assert(errs_items(full, first) =~= errs_items(es, first) + seq![44u8] + spec_error_json(
            e,
        ));
    }
}

/// A serialized error array is a bracket, its element text, a bracket.
pub proof fn lemma_errors_array_items(es: Seq<ApiErrorV>)
    ensures
        spec_errors_array(es) == seq![91u8] + errs_items(es, true) + seq![93u8],
    decreases es.len(),
{
    reveal_strlit("[]");
    if es.len() == 0 {
        assert(ascii_of("[]"@)[0] == 91 && ascii_of("[]"@)[1] == 93);
        assert(spec_errors_array(es) =~= seq![91u8] + errs_items(es, true) + seq![93u8]);
    } else if es.len() == 1 {
        assert(es[0] == es.last());
        assert(es.subrange(1, es.len() as int) =~= Seq::<ApiErrorV>::empty());
        assert(errs_items(Seq::<ApiErrorV>::empty(), false) == Seq::<u8>::empty());
        assert(errs_items(es, true) =~= spec_error_json(es[0]));
        assert(spec_errors_array(es) =~= seq![91u8] + errs_items(es, true) + seq![93u8]);
    } else {
        let head = es.drop_last();
        lemma_errors_array_items(head);
        assert(head.push(es.last()) =~= es);
        lemma_items_snoc(head, es.last(), true);
        assert((seq![91u8] + errs_items(head, true) + seq![93u8]).drop_last() =~= seq![91u8]
            + errs_items(head, true));
        assert(spec_errors_array(es) =~= seq![91u8] + errs_items(es, true) + seq![93u8]);
    }
}

/// Reading a serialized error array's elements gives them back in order.
#[verifier::rlimit(100)]
pub proof fn lemma_errs_arr_round_trip(
    s: Seq<u8>,
    i: int,
    es: Seq<ApiErrorV>,
    acc: Seq<ApiErrorV>,
    first: bool,
)
    requires
        0 <= i,
        i + errs_items(es, first).len() + 1 <= s.len(),
        s.subrange(i, i + errs_items(es, first).len() + 1) == errs_items(es, first) + seq![93u8],
    ensures
        crate::decode::spec_errs_arr(s, i, first, acc) == Option::Some(
            (acc + es, i + errs_items(es, first).len() + 1),
        ),
    decreases es.len(),
{
    let items = errs_items(es, first);
    let whole = items + seq![93u8];
    assert(forall|k: int| 0 <= k < whole.len() ==> s[i + k] == #[trigger] whole[k]) by {
        assert(forall|k: int|
            0 <= k < whole.len() ==> #[trigger] whole[k] == s.subrange(i, i + whole.len())[k]);
    }
    if es.len() == 0 {
        assert(whole[0] == 93);
        assert(s[i] == 93);
        assert(spec_ws(s, i) == i);
        assert(acc + es =~= acc);
    } else {
        let sep: int = if first { 0 } else { 1 };
        let ej = spec_error_json(es[0]);
        let rest = es.subrange(1, es.len() as int);
        let tail_items = errs_items(rest, false);
        assert(items == (if first { Seq::<u8>::empty() } else { seq![44u8] }) + ej + tail_items);
        reveal_strlit("{\"code\":");
        assert(ej == ascii_of("{\"code\":"@) + dec_of(es[0].code as nat) + ascii_of(
            ",\"message\":"@,
        ) + json_string(es[0].message) + seq![125u8]);
        assert(ej[0] == ascii_of("{\"code\":"@)[0]);
        assert(ej[0] == 123);
        assert(whole[sep] == items[sep] && items[sep] == ej[0]);
        assert(s[i + sep] == 123);
        if !first {
            assert(whole[0] == 44);
            assert(s[i] == 44);
            assert(spec_ws(s, i + 1) == i + 1);
        }
        assert(spec_ws(s, i) == i);
        let o = i + sep;
        assert(s.subrange(o, o + ej.len()) =~= ej) by {
            assert(forall|k: int| 0 <= k < ej.len() ==> whole[sep + k] == #[trigger] ej[k]);
        }
        lemma_err_obj_round_trip(s, o, es[0]);
        let f = o + ej.len();
        assert(crate::decode::adv(s, i, f) == f);
        assert(s.subrange(f, f + tail_items.len() + 1) =~= tail_items + seq![93u8]) by {
            assert(forall|k: int|
                0 <= k < tail_items.len() + 1 ==> whole[sep + ej.len() + k] == #[trigger] (
                tail_items + seq![93u8])[k]);
        }
        lemma_errs_arr_round_trip(s, f, rest, acc.push(es[0]), false);
        assert(acc.push(es[0]) + rest =~= acc + es);
        assert(crate::decode::spec_errs_arr(s, i, first, acc) == crate::decode::spec_errs_arr(
            s,
            f,
            false,
            acc.push(es[0]),
        ));
    }
}

/// Round trip of the failure wrapper: a serialized error set read back
/// yields exactly the same errors, in the same order.  This is the
/// envelope round-trip law for the failure side; errors carry exactly
/// their code and message, so equality is equality on those.
#[verifier::rlimit(100)]
pub proof fn lemma_errors_doc_round_trip(es: Seq<ApiErrorV>)
    ensures
        crate::decode::spec_parse_errors_doc(spec_errors_json(es)) == Option::Some(
            ApiErrorsV { errors: es },
        ),
{
    reveal_strlit("{\"errors\":");
    reveal_strlit("errors");
    let c1 = ascii_of("{\"errors\":"@);
    let arr = spec_errors_array(es);
    let s = spec_errors_json(es);
    assert(c1.len() == 10);
    assert(s == c1 + arr + seq![125u8]);
    lemma_errors_array_items(es);
    let items = errs_items(es, true);
    let il = items.len() as int;
    assert(forall|k: int| 0 <= k < s.len() ==> s[k] == #[trigger] (c1 + arr + seq![125u8])[k]);
    assert forall|k: int| 0 <= k < 10 implies s[k] == #[trigger] c1[k] by {
        assert(s[k] == (c1 + arr + seq![125u8])[k]);
    }
    assert(c1[0] == 123 && c1[1] == 34 && c1[2] == 101 && c1[3] == 114 && c1[4] == 114 && c1[5]
        == 111 && c1[6] == 114 && c1[7] == 115 && c1[8] == 34 && c1[9] == 58);
    assert(s[0] == 123 && s[1] == 34 && s[8] == 34 && s[9] == 58);
    assert(spec_ws(s, 0) == 0);
    assert(spec_ws(s, 1) == 1);
    let key = ascii_of("errors"@);
    assert(is_plain(key));
    lemma_escape_plain(key);
    assert(s.subrange(2, 8) =~= key) by {
        assert(forall|k: int| 0 <= k < 6 ==> c1[2 + k] == #[trigger] key[k]);
    }
    assert(2 + json_escape(key).len() < s.len());
    lemma_jstr_unescape(s, 2, key, Seq::empty());
    assert(Seq::empty() + key =~= key);
    assert(spec_ws(s, 9) == 9);
    assert(arr[0] == (seq![91u8] + items + seq![93u8])[0]);
    assert(s[10] == arr[0] && arr[0] == 91);
    assert(spec_ws(s, 10) == 10);
    assert(s.subrange(11, 12 + il) =~= items + seq![93u8]) by {
        assert(forall|k: int|
            0 <= k < il + 1 ==> (c1 + arr + seq![125u8])[11 + k] == #[trigger] (items
                + seq![93u8])[k]);
    }
    lemma_errs_arr_round_trip(s, 11, es, Seq::empty(), true);
    assert(Seq::empty() + es =~= es);
    let f: int = 12 + il;
    assert(crate::decode::adv(s, 1, f) == f);
    assert(crate::decode::spec_errdoc_fields(s, 1, true, Option::None)
        == crate::decode::spec_errdoc_fields(s, f, false, Option::Some(es)));
    assert(s[f] == (c1 + arr + seq![125u8])[f] && s[f] == 125);
    assert(spec_ws(s, f) == f);
    assert(crate::decode::spec_errdoc_fields(s, f, false, Option::Some(es)) == Option::Some(
        (ApiErrorsV { errors: es }, f + 1),
    ));
    assert(spec_ws(s, f + 1) == s.len());
}


/// A formatted octet takes at most three digits.
proof fn lemma_octet_digits(n: u8)
    ensures
        1 <= dec_of(n as nat).len() <= 3,
        dec_val(dec_of(n as nat)) == n as nat,
        dec_of(n as nat)[0] != 48 || dec_of(n as nat).len() == 1,
        forall|k: int| 0 <= k < dec_of(n as nat).len() ==> is_digit(#[trigger] dec_of(n as nat)[k]),
{
    crate::text::lemma_dec_of_digits(n as nat);
    crate::text::lemma_dec_val_of_dec_of(n as nat);
    let d = dec_of(n as nat);
    if d.len() >= 4 {
        if d[0] == 48 {
            assert(n == 0);
            assert(dec_of(0) =~= seq![48u8]);
        } else {
            crate::text::lemma_dec_val_lower(d);
            crate::text::lemma_pow10_mono(3, (d.len() - 1) as nat);
            reveal_with_fuel(crate::text::pow10, 4);
        }
    }
    if d[0] == 48 && d.len() > 1 {
        assert(n == 0);
        assert(dec_of(0) =~= seq![48u8]);
    }
}

/// Reading back the text of an address gives the address: the textual
/// form round-trips through the address reader.
#[verifier::rlimit(100)]
pub proof fn lemma_ipv4_text_round_trip(ip: Ipv4Addr)
    ensures
        crate::decode::spec_parse_ipv4_text(crate::encode::ipv4_text(ip)) == Option::Some(ip),
{
    let da = dec_of(ip.a as nat);
    let db = dec_of(ip.b as nat);
    let dc = dec_of(ip.c as nat);
    let dd = dec_of(ip.d as nat);
    let t = crate::encode::ipv4_text(ip);
    assert(t == da + seq![46u8] + db + seq![46u8] + dc + seq![46u8] + dd);
    lemma_octet_digits(ip.a);
    lemma_octet_digits(ip.b);
    lemma_octet_digits(ip.c);
    lemma_octet_digits(ip.d);
    let la = da.len() as int;
    let lb = db.len() as int;
    let lc = dc.len() as int;
    let ld = dd.len() as int;
    let s2 = la + 1;
    let s3 = la + 1 + lb + 1;
    let s4 = la + 1 + lb + 1 + lc + 1;
    assert(t.len() == la + lb + lc + ld + 3);
    assert forall|k: int| 0 <= k < la implies t[k] == #[trigger] da[k] by {}
    assert(t[la] == 46);
    assert forall|k: int| 0 <= k < lb implies t[s2 + k] == #[trigger] db[k] by {}
    assert(t[s3 - 1] == 46);
    assert forall|k: int| 0 <= k < lc implies t[s3 + k] == #[trigger] dc[k] by {}
    assert(t[s4 - 1] == 46);
    assert forall|k: int| 0 <= k < ld implies t[s4 + k] == #[trigger] dd[k] by {}
    assert forall|k: int| 0 <= k < la implies is_digit(#[trigger] t[k]) by {
        assert(t[k] == da[k]);
        assert(is_digit(da[k]));
    }
    assert forall|k: int| s2 <= k < s2 + lb implies is_digit(#[trigger] t[k]) by {
        assert(t[k] == db[k - s2]);
        assert(is_digit(db[k - s2]));
    }
    assert forall|k: int| s3 <= k < s3 + lc implies is_digit(#[trigger] t[k]) by {
        assert(t[k] == dc[k - s3]);
        assert(is_digit(dc[k - s3]));
    }
    assert forall|k: int| s4 <= k < s4 + ld implies is_digit(#[trigger] t[k]) by {
        assert(t[k] == dd[k - s4]);
        assert(is_digit(dd[k - s4]));
    }
    crate::laws::lemma_num_end_run(t, 0, la);
    crate::laws::lemma_num_end_run(t, s2, s2 + lb);
    crate::laws::lemma_num_end_run(t, s3, s3 + lc);
    crate::laws::lemma_num_end_run(t, s4, s4 + ld);
    assert(t.subrange(0, la) =~= da);
    assert(t.subrange(s2, s2 + lb) =~= db);
    assert(t.subrange(s3, s3 + lc) =~= dc);
    assert(t.subrange(s4, s4 + ld) =~= dd);
    assert(crate::decode::octet_ok(t, 0, la));
    assert(crate::decode::octet_ok(t, s2, s2 + lb));
    assert(crate::decode::octet_ok(t, s3, s3 + lc));
    assert(crate::decode::octet_ok(t, s4, s4 + ld));
    assert(dec_val(t.subrange(0, la)) == ip.a as nat);
    assert(dec_val(t.subrange(s2, s2 + lb)) == ip.b as nat);
    assert(dec_val(t.subrange(s3, s3 + lc)) == ip.c as nat);
    assert(dec_val(t.subrange(s4, s4 + ld)) == ip.d as nat);
}

} // verus!
