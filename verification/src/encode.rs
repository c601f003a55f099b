//! Encoding of request parameters and envelopes into their wire form:
//! URL query strings for list queries and JSON for update bodies and
//! envelopes.  Every function's output is pinned byte for byte.

use vstd::prelude::*;

use crate::cf_base::ApiError;
use crate::cf_base::ApiErrorV;
use crate::cf_base::ApiErrors;
use crate::cf_base::ApiSuccess;
use crate::cf_base::DnsContent;
use crate::cf_base::DnsContentV;
use crate::cf_base::DnsRecord;
use crate::cf_base::DnsRecordV;
use crate::cf_base::records_view;
use crate::cf_base::Ipv4Addr;
use crate::cf_base::ListDnsRecordsOrder;
use crate::cf_base::ListDnsRecordsParams;
use crate::cf_base::ListDnsRecordsParamsV;
use crate::cf_base::OrderDirection;
use crate::cf_base::SearchMatch;
use crate::cf_base::UpdateDnsRecordParams;
use crate::cf_base::UpdateDnsRecordParamsV;
use crate::text::ascii_of;
use crate::text::dec_of;
use crate::text::lit_bytes;
use crate::text::push_bytes;
use crate::text::push_dec_u32;
use crate::text::push_lit;

verus! {

/// The textual form of an IPv4 address: four decimal octets joined by dots.
pub open spec fn ipv4_text(ip: Ipv4Addr) -> Seq<u8> {
    dec_of(ip.a as nat) + seq![46u8] + dec_of(ip.b as nat) + seq![46u8] + dec_of(ip.c as nat)
        + seq![46u8] + dec_of(ip.d as nat)
}

/// Append the textual form of an IPv4 address.
pub fn push_ipv4(out: &mut Vec<u8>, ip: Ipv4Addr)
    ensures
        final(out)@ == old(out)@ + ipv4_text(ip),
{
    push_dec_u32(out, ip.a as u32);
    out.push(46);
    push_dec_u32(out, ip.b as u32);
    out.push(46);
    push_dec_u32(out, ip.c as u32);
    out.push(46);
    push_dec_u32(out, ip.d as u32);
    proof {
        assert(out@ =~= old(out)@ + ipv4_text(ip));
    }
}

/// The textual form of a boolean.
pub open spec fn bool_text(b: bool) -> Seq<u8> {
    if b {
        ascii_of("true"@)
    } else {
        ascii_of("false"@)
    }
}

/// Append the textual form of a boolean.
pub fn push_bool(out: &mut Vec<u8>, b: bool)
    ensures
        final(out)@ == old(out)@ + bool_text(b),
{
    proof {
        reveal_strlit("true");
        reveal_strlit("false");
    }
    if b {
        push_lit(out, "true");
    } else {
        push_lit(out, "false");
    }
}

/// A lowercase hexadecimal digit.
pub open spec fn hex_digit(n: u8) -> u8 {
    if n < 10 {
        (48 + n) as u8
    } else {
        (87 + n) as u8
    }
}

/// The JSON escape of one string byte: quotes and backslashes get a
/// backslash escape, control bytes a `\u00..` escape, all else is itself.
pub open spec fn esc_byte(b: u8) -> Seq<u8> {
    if b == 34 {
        seq![92u8, 34u8]
    } else if b == 92 {
        seq![92u8, 92u8]
    } else if b < 32 {
        seq![92u8, 117u8, 48u8, 48u8, hex_digit(b / 16), hex_digit(b % 16)]
    } else {
        seq![b]
    }
}

/// The JSON escape of a whole string.
pub open spec fn json_escape(s: Seq<u8>) -> Seq<u8>
    decreases s.len(),
{
    if s.len() == 0 {
        Seq::empty()
    } else {
        json_escape(s.drop_last()) + esc_byte(s.last())
    }
}

/// A JSON string literal: quote, escaped content, quote.
pub open spec fn json_string(s: Seq<u8>) -> Seq<u8> {
    seq![34u8] + json_escape(s) + seq![34u8]
}

/// Append the JSON escape of `s`.
pub fn push_json_escaped(out: &mut Vec<u8>, s: &[u8])
    ensures
        final(out)@ == old(out)@ + json_escape(s@),
{
    let mut i: usize = 0;
    while i < s.len()
        invariant
            i <= s.len(),
            out@ == old(out)@ + json_escape(s@.take(i as int)),
        decreases s.len() - i,
    {
        let b = s[i];
        if b == 34 {
            out.push(92);
            out.push(34);
        } else if b == 92 {
            out.push(92);
            out.push(92);
        } else if b < 32 {
            out.push(92);
            out.push(117);
            out.push(48);
            out.push(48);
            let hi = b / 16;
            let lo = b % 16;
            out.push(if hi < 10 { 48 + hi } else { 87 + hi });
            out.push(if lo < 10 { 48 + lo } else { 87 + lo });
        } else {
            out.push(b);
        }
        proof {
            assert(s@.take(i + 1).drop_last() =~= s@.take(i as int));
            assert(s@.take(i + 1).last() == s@[i as int]);
            assert(out@ =~= old(out)@ + json_escape(s@.take(i + 1)));
        }
        i = i + 1;
    }
    proof {
        assert(s@.take(s@.len() as int) =~= s@);
    }
}

/// Append a JSON string literal holding `s`.
pub fn push_json_string(out: &mut Vec<u8>, s: &[u8])
    ensures
        final(out)@ == old(out)@ + json_string(s@),
{
    out.push(34);
    push_json_escaped(out, s);
    out.push(34);
    proof {
        assert(out@ =~= old(out)@ + json_string(s@));
    }
}

/// The wire tag of a content kind.
pub open spec fn tag_of(c: DnsContentV) -> Seq<u8> {
    match c {
        DnsContentV::A { .. } => ascii_of("A"@),
        DnsContentV::AAAA { .. } => ascii_of("AAAA"@),
        DnsContentV::CNAME { .. } => ascii_of("CNAME"@),
        DnsContentV::NS { .. } => ascii_of("NS"@),
        DnsContentV::MX { .. } => ascii_of("MX"@),
        DnsContentV::TXT { .. } => ascii_of("TXT"@),
        DnsContentV::SRV { .. } => ascii_of("SRV"@),
    }
}

/// The textual value of a content kind: the address text for `A`,
/// the carried text for every other kind.
pub open spec fn content_text(c: DnsContentV) -> Seq<u8> {
    match c {
        DnsContentV::A { content } => ipv4_text(content),
        DnsContentV::AAAA { content } => content,
        DnsContentV::CNAME { content } => content,
        DnsContentV::NS { content } => content,
        DnsContentV::MX { content, .. } => content,
        DnsContentV::TXT { content } => content,
        DnsContentV::SRV { content } => content,
    }
}

/// The priority carried by a content kind, for the kinds that have one.
pub open spec fn priority_of(c: DnsContentV) -> Option<u16> {
    match c {
        DnsContentV::MX { priority, .. } => Option::Some(priority),
        _ => Option::None,
    }
}

/// Append the wire tag of `c`.
pub fn push_tag(out: &mut Vec<u8>, c: &DnsContent)
    ensures
        final(out)@ == old(out)@ + tag_of(c@),
{
    proof {
        reveal_strlit("A");
        reveal_strlit("AAAA");
        reveal_strlit("CNAME");
        reveal_strlit("NS");
        reveal_strlit("MX");
        reveal_strlit("TXT");
        reveal_strlit("SRV");
    }
    match c {
        DnsContent::A { .. } => push_lit(out, "A"),
        DnsContent::AAAA { .. } => push_lit(out, "AAAA"),
        DnsContent::CNAME { .. } => push_lit(out, "CNAME"),
        DnsContent::NS { .. } => push_lit(out, "NS"),
        DnsContent::MX { .. } => push_lit(out, "MX"),
        DnsContent::TXT { .. } => push_lit(out, "TXT"),
        DnsContent::SRV { .. } => push_lit(out, "SRV"),
    }
}

/// Append the textual value of `c`.
pub fn push_content_text(out: &mut Vec<u8>, c: &DnsContent)
    ensures
        final(out)@ == old(out)@ + content_text(c@),
{
    match c {
        DnsContent::A { content } => push_ipv4(out, *content),
        DnsContent::AAAA { content } => push_bytes(out, content.as_slice()),
        DnsContent::CNAME { content } => push_bytes(out, content.as_slice()),
        DnsContent::NS { content } => push_bytes(out, content.as_slice()),
        DnsContent::MX { content, .. } => push_bytes(out, content.as_slice()),
        DnsContent::TXT { content } => push_bytes(out, content.as_slice()),
        DnsContent::SRV { content } => push_bytes(out, content.as_slice()),
    }
}

/// The JSON body of an update request: exactly the present fields, in the
/// order ttl, proxied, name, then the content's tag and fields; absent
/// optional fields are omitted entirely.
pub open spec fn spec_update_body(p: UpdateDnsRecordParamsV) -> Seq<u8> {
    seq![123u8] + (match p.ttl {
        Option::Some(t) => ascii_of("\"ttl\":"@) + dec_of(t as nat) + seq![44u8],
        Option::None => Seq::empty(),
    }) + (match p.proxied {
        Option::Some(b) => ascii_of("\"proxied\":"@) + bool_text(b) + seq![44u8],
        Option::None => Seq::empty(),
    }) + ascii_of("\"name\":"@) + json_string(p.name) + seq![44u8] + ascii_of("\"type\":"@)
        + json_string(tag_of(p.content)) + seq![44u8] + ascii_of("\"content\":"@) + json_string(
        content_text(p.content),
    ) + (match priority_of(p.content) {
        Option::Some(pr) => seq![44u8] + ascii_of("\"priority\":"@) + dec_of(pr as nat),
        Option::None => Seq::empty(),
    }) + seq![125u8]
}

/// Serialize an update request body.
#[verifier::rlimit(100)]
pub fn update_body(p: &UpdateDnsRecordParams) -> (r: Vec<u8>)
    ensures
        r@ == spec_update_body(p@),
{
    proof {
        reveal_strlit("\"ttl\":");
        reveal_strlit("\"proxied\":");
        reveal_strlit("\"name\":");
        reveal_strlit("\"type\":");
        reveal_strlit("\"content\":");
        reveal_strlit("\"priority\":");
    }
    let mut out: Vec<u8> = Vec::new();
    out.push(123);
    match p.ttl {
        Option::Some(t) => {
            push_lit(&mut out, "\"ttl\":");
            push_dec_u32(&mut out, t);
            out.push(44);
        },
        Option::None => {},
    }
    match p.proxied {
        Option::Some(b) => {
            push_lit(&mut out, "\"proxied\":");
            push_bool(&mut out, b);
            out.push(44);
        },
        Option::None => {},
    }
    push_lit(&mut out, "\"name\":");
    push_json_string(&mut out, p.name.as_slice());
    out.push(44);
    push_lit(&mut out, "\"type\":");
    let tag = content_tag_bytes(&p.content);
    push_json_string(&mut out, tag.as_slice());
    out.push(44);
    push_lit(&mut out, "\"content\":");
    let text = content_text_bytes(&p.content);
    push_json_string(&mut out, text.as_slice());
    match &p.content {
        DnsContent::MX { priority, .. } => {
            out.push(44);
            push_lit(&mut out, "\"priority\":");
            push_dec_u32(&mut out, *priority as u32);
        },
        _ => {},
    }
    out.push(125);
    proof {
        assert(out@ =~= spec_update_body(p@));
    }
    out
}

/// The wire tag of `c`, as owned bytes.
pub fn content_tag_bytes(c: &DnsContent) -> (r: Vec<u8>)
    ensures
        r@ == tag_of(c@),
{
    let mut out: Vec<u8> = Vec::new();
    push_tag(&mut out, c);
    out
}

/// The textual value of `c`, as owned bytes.
pub fn content_text_bytes(c: &DnsContent) -> (r: Vec<u8>)
    ensures
        r@ == content_text(c@),
{
    let mut out: Vec<u8> = Vec::new();
    push_content_text(&mut out, c);
    out
}

/// The ordering field's wire name.
pub open spec fn order_text(o: ListDnsRecordsOrder) -> Seq<u8> {
    match o {
        ListDnsRecordsOrder::Type => ascii_of("type"@),
        ListDnsRecordsOrder::Name => ascii_of("name"@),
        ListDnsRecordsOrder::Content => ascii_of("content"@),
        ListDnsRecordsOrder::Ttl => ascii_of("ttl"@),
        ListDnsRecordsOrder::Proxied => ascii_of("proxied"@),
    }
}

/// The ordering direction's wire name.
pub open spec fn direction_text(d: OrderDirection) -> Seq<u8> {
    match d {
        OrderDirection::Ascending => ascii_of("asc"@),
        OrderDirection::Descending => ascii_of("desc"@),
    }
}

/// The match mode's wire name.
pub open spec fn search_match_text(m: SearchMatch) -> Seq<u8> {
    match m {
        SearchMatch::All => ascii_of("all"@),
        SearchMatch::Any => ascii_of("any"@),
    }
}

/// One `&key=value` query segment.
pub open spec fn amp_pair(k: Seq<u8>, v: Seq<u8>) -> Seq<u8> {
    seq![38u8] + k + seq![61u8] + v
}

/// The query segments a record-type filter contributes: its tag, its
/// textual value, and a priority for the kinds that carry one.
pub open spec fn spec_type_segments(c: DnsContentV) -> Seq<u8> {
    amp_pair(ascii_of("type"@), tag_of(c)) + amp_pair(ascii_of("content"@), content_text(c)) + (
    match priority_of(c) {
        Option::Some(pr) => amp_pair(ascii_of("priority"@), dec_of(pr as nat)),
        Option::None => Seq::empty(),
    })
}

/// The query segments of a list query, each led by `&`: exactly the
/// present fields, in declaration order.
pub open spec fn spec_list_query_amp(p: ListDnsRecordsParamsV) -> Seq<u8> {
    (match p.record_type {
        Option::Some(c) => spec_type_segments(c),
        Option::None => Seq::empty(),
    }) + (match p.name {
        Option::Some(n) => amp_pair(ascii_of("name"@), n),
        Option::None => Seq::empty(),
    }) + (match p.page {
        Option::Some(v) => amp_pair(ascii_of("page"@), dec_of(v as nat)),
        Option::None => Seq::empty(),
    }) + (match p.per_page {
        Option::Some(v) => amp_pair(ascii_of("per_page"@), dec_of(v as nat)),
        Option::None => Seq::empty(),
    }) + (match p.order {
        Option::Some(o) => amp_pair(ascii_of("order"@), order_text(o)),
        Option::None => Seq::empty(),
    }) + (match p.direction {
        Option::Some(d) => amp_pair(ascii_of("direction"@), direction_text(d)),
        Option::None => Seq::empty(),
    }) + (match p.search_match {
        Option::Some(m) => amp_pair(ascii_of("match"@), search_match_text(m)),
        Option::None => Seq::empty(),
    })
}

/// The full query string of a list query: the present fields as
/// `key=value` joined with `&`, with no key for any absent field.
pub open spec fn spec_list_query(p: ListDnsRecordsParamsV) -> Seq<u8> {
    if spec_list_query_amp(p).len() == 0 {
        Seq::empty()
    } else {
        spec_list_query_amp(p).drop_first()
    }
}

/// Append one `&key=value` segment.
fn push_amp(out: &mut Vec<u8>, k: &str, v: &[u8])
    requires
        k.is_ascii(),
    ensures
        final(out)@ == old(out)@ + amp_pair(ascii_of(k@), v@),
{
    out.push(38);
    push_lit(out, k);
    out.push(61);
    push_bytes(out, v);
    proof {
        assert(out@ =~= old(out)@ + amp_pair(ascii_of(k@), v@));
    }
}

/// Append the segments of a record-type filter.
fn push_type_segments(out: &mut Vec<u8>, c: &DnsContent)
    ensures
        final(out)@ == old(out)@ + spec_type_segments(c@),
{
    proof {
        reveal_strlit("type");
        reveal_strlit("content");
        reveal_strlit("priority");
    }
    let tag = content_tag_bytes(c);
    push_amp(out, "type", tag.as_slice());
    let text = content_text_bytes(c);
    push_amp(out, "content", text.as_slice());
    match c {
        DnsContent::MX { priority, .. } => {
            let mut pr: Vec<u8> = Vec::new();
            push_dec_u32(&mut pr, *priority as u32);
            push_amp(out, "priority", pr.as_slice());
        },
        _ => {},
    }
    proof {
        assert(out@ =~= old(out)@ + spec_type_segments(c@));
    }
}

/// Serialize a list query into its query string: exactly the present
/// fields, joined with `&`, with no key for any absent field.
#[verifier::rlimit(100)]
pub fn list_query(p: &ListDnsRecordsParams) -> (r: Vec<u8>)
    ensures
        r@ == spec_list_query(p@),
{
    proof {
        reveal_strlit("name");
        reveal_strlit("page");
        reveal_strlit("per_page");
        reveal_strlit("order");
        reveal_strlit("direction");
        reveal_strlit("match");
        reveal_strlit("asc");
        reveal_strlit("desc");
        reveal_strlit("all");
        reveal_strlit("any");
        reveal_strlit("type");
        reveal_strlit("content");
        reveal_strlit("ttl");
        reveal_strlit("proxied");
    }
    let mut amp: Vec<u8> = Vec::new();
    match &p.record_type {
        Option::Some(c) => push_type_segments(&mut amp, c),
        Option::None => {},
    }
    match &p.name {
        Option::Some(n) => push_amp(&mut amp, "name", n.as_slice()),
        Option::None => {},
    }
    match p.page {
        Option::Some(v) => {
            let mut d: Vec<u8> = Vec::new();
            push_dec_u32(&mut d, v);
            push_amp(&mut amp, "page", d.as_slice());
        },
        Option::None => {},
    }
    match p.per_page {
        Option::Some(v) => {
            let mut d: Vec<u8> = Vec::new();
            push_dec_u32(&mut d, v);
            push_amp(&mut amp, "per_page", d.as_slice());
        },
        Option::None => {},
    }
    match p.order {
        Option::Some(o) => {
            let t = match o {
                ListDnsRecordsOrder::Type => lit_bytes("type"),
                ListDnsRecordsOrder::Name => lit_bytes("name"),
                ListDnsRecordsOrder::Content => lit_bytes("content"),
                ListDnsRecordsOrder::Ttl => lit_bytes("ttl"),
                ListDnsRecordsOrder::Proxied => lit_bytes("proxied"),
            };
            push_amp(&mut amp, "order", t.as_slice());
        },
        Option::None => {},
    }
    match p.direction {
        Option::Some(d) => {
            let t = match d {
                OrderDirection::Ascending => lit_bytes("asc"),
                OrderDirection::Descending => lit_bytes("desc"),
            };
            push_amp(&mut amp, "direction", t.as_slice());
        },
        Option::None => {},
    }
    match p.search_match {
        Option::Some(m) => {
            let t = match m {
                SearchMatch::All => lit_bytes("all"),
                SearchMatch::Any => lit_bytes("any"),
            };
            push_amp(&mut amp, "match", t.as_slice());
        },
        Option::None => {},
    }
    proof {
        assert(amp@ =~= spec_list_query_amp(p@));
    }
    if amp.len() == 0 {
        Vec::new()
    } else {
        let tail = vstd::slice::slice_subrange(amp.as_slice(), 1, amp.len());
        let r = crate::text::copy_bytes(tail);
        proof {
            assert(r@ =~= spec_list_query(p@));
        }
        r
    }
}

/// The JSON form of one structured error.
pub open spec fn spec_error_json(e: ApiErrorV) -> Seq<u8> {
    ascii_of("{\"code\":"@) + dec_of(e.code as nat) + ascii_of(",\"message\":"@) + json_string(
        e.message,
    ) + seq![125u8]
}

/// A JSON array of structured errors.
pub open spec fn spec_errors_array(es: Seq<ApiErrorV>) -> Seq<u8>
    decreases es.len(),
{
    if es.len() == 0 {
        ascii_of("[]"@)
    } else if es.len() == 1 {
        seq![91u8] + spec_error_json(es[0]) + seq![93u8]
    } else {
        spec_errors_array(es.drop_last()).drop_last() + seq![44u8] + spec_error_json(es.last())
            + seq![93u8]
    }
}

/// The JSON form of the failure wrapper.
pub open spec fn spec_errors_json(errors: Seq<ApiErrorV>) -> Seq<u8> {
    ascii_of("{\"errors\":"@) + spec_errors_array(errors) + seq![125u8]
}

/// Append the JSON form of one structured error.
pub fn push_error_json(out: &mut Vec<u8>, e: &ApiError)
    ensures
        final(out)@ == old(out)@ + spec_error_json(e@),
{
    proof {
        reveal_strlit("{\"code\":");
        reveal_strlit(",\"message\":");
    }
    push_lit(out, "{\"code\":");
    push_dec_u32(out, e.code as u32);
    push_lit(out, ",\"message\":");
    push_json_string(out, e.message.as_slice());
    out.push(125);
    proof {
        assert(out@ =~= old(out)@ + spec_error_json(e@));
    }
}

/// Append a JSON array of structured errors.
pub fn push_errors_array(out: &mut Vec<u8>, es: &Vec<ApiError>)
    ensures
        final(out)@ == old(out)@ + spec_errors_array(Seq::new(es@.len(), |i: int| es@[i]@)),
{
    proof {
        reveal_strlit("[]");
    }
    let ghost evs = Seq::new(es@.len(), |i: int| es@[i]@);
    if es.len() == 0 {
        push_lit(out, "[]");
        return ;
    }
    out.push(91);
    let mut i: usize = 0;
    while i < es.len()
        invariant
            1 <= es@.len(),
            i <= es@.len(),
            evs == Seq::new(es@.len(), |k: int| es@[k]@),
            i == 0 ==> out@ == old(out)@ + seq![91u8],
            i >= 1 ==> out@ + seq![93u8] == old(out)@ + spec_errors_array(evs.take(i as int)),
        decreases es.len() - i,
    {
        let ghost out0 = out@;
        if i > 0 {
            out.push(44);
        }
        push_error_json(out, &es[i]);
        proof {
            assert(evs.take(i + 1).drop_last() =~= evs.take(i as int));
            assert(evs.take(i + 1).last() == evs[i as int]);
            if i == 0 {
                assert(out@ + seq![93u8] =~= old(out)@ + spec_errors_array(evs.take(1)));
            } else {
                let prev = spec_errors_array(evs.take(i as int));
                assert(prev.len() >= 2 && prev.last() == 93);
                assert forall|k: int| 0 <= k < out0.len() implies out0[k] == (old(out)@
                    + prev.drop_last())[k] by {
                    assert((out0 + seq![93u8])[k] == (old(out)@ + prev)[k]);
                }
                assert(out0 =~= old(out)@ + prev.drop_last());
                assert(out@ + seq![93u8] =~= old(out)@ + spec_errors_array(evs.take(i + 1)));
            }
        }
        i = i + 1;
    }
    out.push(93);
    proof {
        assert(evs.take(evs.len() as int) =~= evs);
        assert(out@ =~= old(out)@ + spec_errors_array(evs));
    }
}

/// Serialize the failure wrapper.
pub fn errors_to_json(d: &ApiErrors) -> (r: Vec<u8>)
    ensures
        r@ == spec_errors_json(d@.errors),
{
    proof {
        reveal_strlit("{\"errors\":");
    }
    let mut out: Vec<u8> = Vec::new();
    push_lit(&mut out, "{\"errors\":");
    push_errors_array(&mut out, &d.errors);
    out.push(125);
    proof {
        assert(Seq::new(d.errors@.len(), |i: int| d.errors@[i]@) =~= d@.errors);
        assert(out@ =~= spec_errors_json(d@.errors));
    }
    out
}

/// The leading fields of a record's JSON form.
pub open spec fn spec_record_head(r: DnsRecordV) -> Seq<u8> {
    ascii_of("{\"name\":"@) + json_string(r.name) + ascii_of(",\"ttl\":"@) + dec_of(r.ttl as nat)
        + ascii_of(",\"modified_on\":"@) + json_string(r.modified_on) + ascii_of(
        ",\"created_on\":"@,
    ) + json_string(r.created_on)
}

/// The content fields of a record's JSON form, flattened beside the
/// record's own attributes.
pub open spec fn spec_record_mid(r: DnsRecordV) -> Seq<u8> {
    ascii_of(",\"proxiable\":"@) + bool_text(r.proxiable) + ascii_of(",\"type\":"@) + json_string(
        tag_of(r.content),
    ) + ascii_of(",\"content\":"@) + json_string(content_text(r.content)) + (match priority_of(
        r.content,
    ) {
        Option::Some(pr) => ascii_of(",\"priority\":"@) + dec_of(pr as nat),
        Option::None => Seq::empty(),
    })
}

/// The trailing fields of a record's JSON form.
pub open spec fn spec_record_tail(r: DnsRecordV) -> Seq<u8> {
    ascii_of(",\"id\":"@) + json_string(r.id) + ascii_of(",\"proxied\":"@) + bool_text(r.proxied)
        + seq![125u8]
}

/// The JSON form of one record, with the content's tag and fields
/// flattened beside the record's own attributes.
pub open spec fn spec_record_json(r: DnsRecordV) -> Seq<u8> {
    spec_record_head(r) + spec_record_mid(r) + spec_record_tail(r)
}

fn push_record_head(out: &mut Vec<u8>, r: &DnsRecord)
    ensures
        final(out)@ == old(out)@ + spec_record_head(r@),
{
    proof {
        reveal_strlit("{\"name\":");
        reveal_strlit(",\"ttl\":");
        reveal_strlit(",\"modified_on\":");
        reveal_strlit(",\"created_on\":");
    }
    push_lit(out, "{\"name\":");
    push_json_string(out, r.name.as_slice());
    push_lit(out, ",\"ttl\":");
    push_dec_u32(out, r.ttl);
    push_lit(out, ",\"modified_on\":");
    push_json_string(out, r.modified_on.as_slice());
    push_lit(out, ",\"created_on\":");
    push_json_string(out, r.created_on.as_slice());
    proof {
        assert(out@ =~= old(out)@ + spec_record_head(r@));
    }
}

fn push_record_mid(out: &mut Vec<u8>, r: &DnsRecord)
    ensures
        final(out)@ == old(out)@ + spec_record_mid(r@),
{
    proof {
        reveal_strlit(",\"proxiable\":");
        reveal_strlit(",\"type\":");
        reveal_strlit(",\"content\":");
        reveal_strlit(",\"priority\":");
    }
    push_lit(out, ",\"proxiable\":");
    push_bool(out, r.proxiable);
    push_lit(out, ",\"type\":");
    let tag = content_tag_bytes(&r.content);
    push_json_string(out, tag.as_slice());
    push_lit(out, ",\"content\":");
    let text = content_text_bytes(&r.content);
    push_json_string(out, text.as_slice());
    match &r.content {
        DnsContent::MX { priority, .. } => {
            push_lit(out, ",\"priority\":");
            push_dec_u32(out, *priority as u32);
        },
        _ => {},
    }
    proof {
        assert(out@ =~= old(out)@ + spec_record_mid(r@));
    }
}

fn push_record_tail(out: &mut Vec<u8>, r: &DnsRecord)
    ensures
        final(out)@ == old(out)@ + spec_record_tail(r@),
{
    proof {
        reveal_strlit(",\"id\":");
        reveal_strlit(",\"proxied\":");
    }
    push_lit(out, ",\"id\":");
    push_json_string(out, r.id.as_slice());
    push_lit(out, ",\"proxied\":");
    push_bool(out, r.proxied);
    out.push(125);
    proof {
        assert(out@ =~= old(out)@ + spec_record_tail(r@));
    }
}

/// Append the JSON form of one record.
pub fn push_record_json(out: &mut Vec<u8>, r: &DnsRecord)
    ensures
        final(out)@ == old(out)@ + spec_record_json(r@),
{
    push_record_head(out, r);
    push_record_mid(out, r);
    push_record_tail(out, r);
    proof {
        assert(out@ =~= old(out)@ + spec_record_json(r@));
    }
}

/// A JSON array of records.
pub open spec fn spec_records_array(rs: Seq<DnsRecordV>) -> Seq<u8>
    decreases rs.len(),
{
    if rs.len() == 0 {
        ascii_of("[]"@)
    } else if rs.len() == 1 {
        seq![91u8] + spec_record_json(rs[0]) + seq![93u8]
    } else {
        spec_records_array(rs.drop_last()).drop_last() + seq![44u8] + spec_record_json(rs.last())
            + seq![93u8]
    }
}

/// Append a JSON array of records.
pub fn push_records_array(out: &mut Vec<u8>, rs: &Vec<DnsRecord>)
    ensures
        final(out)@ == old(out)@ + spec_records_array(records_view(rs@)),
{
    proof {
        reveal_strlit("[]");
    }
    let ghost rvs = records_view(rs@);
    if rs.len() == 0 {
        push_lit(out, "[]");
        return ;
    }
    out.push(91);
    let mut i: usize = 0;
    while i < rs.len()
        invariant
            1 <= rs@.len(),
            i <= rs@.len(),
            rvs == records_view(rs@),
            i == 0 ==> out@ == old(out)@ + seq![91u8],
            i >= 1 ==> out@ + seq![93u8] == old(out)@ + spec_records_array(rvs.take(i as int)),
        decreases rs.len() - i,
    {
        let ghost out0 = out@;
        if i > 0 {
            out.push(44);
        }
        push_record_json(out, &rs[i]);
        proof {
            assert(rvs.take(i + 1).drop_last() =~= rvs.take(i as int));
            assert(rvs.take(i + 1).last() == rvs[i as int]);
            if i == 0 {
                assert(out@ + seq![93u8] =~= old(out)@ + spec_records_array(rvs.take(1)));
            } else {
                let prev = spec_records_array(rvs.take(i as int));
                assert(prev.len() >= 2 && prev.last() == 93);
                assert forall|k: int| 0 <= k < out0.len() implies out0[k] == (old(out)@
                    + prev.drop_last())[k] by {
                    assert((out0 + seq![93u8])[k] == (old(out)@ + prev)[k]);
                }
                assert(out0 =~= old(out)@ + prev.drop_last());
                assert(out@ + seq![93u8] =~= old(out)@ + spec_records_array(rvs.take(i + 1)));
            }
        }
        i = i + 1;
    }
    out.push(93);
    proof {
        assert(rvs.take(rvs.len() as int) =~= rvs);
        assert(out@ =~= old(out)@ + spec_records_array(rvs));
    }
}

/// The JSON form of a success envelope holding one record.
pub open spec fn spec_record_envelope_json(
    result: DnsRecordV,
    messages: Seq<u8>,
    errors: Seq<ApiErrorV>,
) -> Seq<u8> {
    ascii_of("{\"result\":"@) + spec_record_json(result) + ascii_of(",\"messages\":"@) + messages
        + ascii_of(",\"errors\":"@) + spec_errors_array(errors) + seq![125u8]
}

/// The JSON form of a success envelope holding a record list.
pub open spec fn spec_list_envelope_json(
    result: Seq<DnsRecordV>,
    messages: Seq<u8>,
    errors: Seq<ApiErrorV>,
) -> Seq<u8> {
    ascii_of("{\"result\":"@) + spec_records_array(result) + ascii_of(",\"messages\":"@) + messages
        + ascii_of(",\"errors\":"@) + spec_errors_array(errors) + seq![125u8]
}

/// Serialize a success envelope holding one record.  The envelope's
/// `messages` bytes are emitted verbatim; `result_info` is not emitted.
pub fn record_envelope_to_json(env: &ApiSuccess<DnsRecord>) -> (r: Vec<u8>)
    ensures
        r@ == spec_record_envelope_json(
            env.result@,
            env.messages@,
            Seq::new(env.errors@.len(), |i: int| env.errors@[i]@),
        ),
{
    proof {
        reveal_strlit("{\"result\":");
        reveal_strlit(",\"messages\":");
        reveal_strlit(",\"errors\":");
    }
    let mut out: Vec<u8> = Vec::new();
    push_lit(&mut out, "{\"result\":");
    push_record_json(&mut out, &env.result);
    push_lit(&mut out, ",\"messages\":");
    push_bytes(&mut out, env.messages.as_slice());
    push_lit(&mut out, ",\"errors\":");
    push_errors_array(&mut out, &env.errors);
    out.push(125);
    proof {
        assert(out@ =~= spec_record_envelope_json(
            env.result@,
            env.messages@,
            Seq::new(env.errors@.len(), |i: int| env.errors@[i]@),
        ));
    }
    out
}

/// Serialize a success envelope holding a record list.  The envelope's
/// `messages` bytes are emitted verbatim; `result_info` is not emitted.
pub fn record_list_envelope_to_json(env: &ApiSuccess<Vec<DnsRecord>>) -> (r: Vec<u8>)
    ensures
        r@ == spec_list_envelope_json(
            records_view(env.result@),
            env.messages@,
            Seq::new(env.errors@.len(), |i: int| env.errors@[i]@),
        ),
{
    proof {
        reveal_strlit("{\"result\":");
        reveal_strlit(",\"messages\":");
        reveal_strlit(",\"errors\":");
    }
    let mut out: Vec<u8> = Vec::new();
    push_lit(&mut out, "{\"result\":");
    push_records_array(&mut out, &env.result);
    push_lit(&mut out, ",\"messages\":");
    push_bytes(&mut out, env.messages.as_slice());
    push_lit(&mut out, ",\"errors\":");
    push_errors_array(&mut out, &env.errors);
    out.push(125);
    proof {
        assert(out@ =~= spec_list_envelope_json(
            records_view(env.result@),
            env.messages@,
            Seq::new(env.errors@.len(), |i: int| env.errors@[i]@),
        ));
    }
    out
}

} // verus!
