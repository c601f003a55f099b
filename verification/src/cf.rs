//! The reconciliation client: it owns the credentials, builds the two
//! requests of an update ("list records", then "update record"), and
//! interprets the provider's responses.  The caller performs the actual
//! transport and hands each response's status and body back.

use vstd::prelude::*;

use crate::cf_base::Credentials;
use crate::cf_base::CredentialsV;
use crate::cf_base::DnsContent;
use crate::cf_base::DnsContentV;
use crate::cf_base::DnsRecord;
use crate::cf_base::DnsRecordV;
use crate::cf_base::Ipv4Addr;
use crate::cf_base::ListDnsRecordsParams;
use crate::cf_base::SearchMatch;
use crate::cf_base::UpdateDnsRecordParams;
use crate::cf_base::records_view;
use crate::cf_base::spec_headers;
use crate::decode::parse_api_errors;
use crate::decode::parse_ipv4_text;
use crate::decode::parse_list_envelope;
use crate::decode::parse_record_envelope;
use crate::decode::spec_parse_errors_doc;
use crate::decode::spec_parse_ipv4_text;
use crate::decode::spec_parse_list_env_doc;
use crate::decode::spec_parse_record_env_doc;
use crate::encode::list_query;
use crate::encode::spec_list_query;
use crate::encode::spec_update_body;
use crate::encode::update_body;
use crate::text::ascii_of;
use crate::text::bytes_eq;
use crate::text::copy_bytes;
use crate::text::dec_of;
use crate::text::push_bytes;
use crate::text::push_dec_u32;
use crate::text::push_lit;

verus! {

/// Mathematical model of the error taxonomy.
pub enum ErrorV {
    InvalidAddress,
    RecordNotFound,
    Transport,
    ApiError { code: u16, message: Seq<u8> },
    ApiErrorGeneric,
}

/// What can go wrong in an update: a desired address that does not parse,
/// a missing record, a transport or body-decoding failure, a structured
/// provider error, or a provider error without detail.
#[derive(Debug)]
pub enum Error {
    InvalidAddress,
    RecordNotFound,
    Transport,
    ApiError { code: u16, message: Vec<u8> },
    ApiErrorGeneric,
}

impl View for Error {
    type V = ErrorV;

    open spec fn view(&self) -> ErrorV {
        match self {
            Error::InvalidAddress => ErrorV::InvalidAddress,
            Error::RecordNotFound => ErrorV::RecordNotFound,
            Error::Transport => ErrorV::Transport,
            Error::ApiError { code, message } => ErrorV::ApiError {
                code: *code,
                message: message@,
            },
            Error::ApiErrorGeneric => ErrorV::ApiErrorGeneric,
        }
    }
}

/// The display text of an error.
pub open spec fn spec_error_message(e: ErrorV) -> Seq<u8> {
    match e {
        ErrorV::InvalidAddress => ascii_of("invalid IPv4 address"@),
        ErrorV::RecordNotFound => ascii_of("no record found"@),
        ErrorV::Transport => ascii_of("transport error"@),
        ErrorV::ApiError { code, message } => ascii_of("Error "@) + dec_of(code as nat) + ascii_of(
            ": "@,
        ) + message,
        ErrorV::ApiErrorGeneric => ascii_of("api error"@),
    }
}

impl Error {
    /// The error's display text, as bytes.
    pub fn message(&self) -> (r: Vec<u8>)
        ensures
            r@ == spec_error_message(self@),
    {
        proof {
            reveal_strlit("invalid IPv4 address");
            reveal_strlit("no record found");
            reveal_strlit("transport error");
            reveal_strlit("Error ");
            reveal_strlit(": ");
            reveal_strlit("api error");
        }
        let mut out: Vec<u8> = Vec::new();
        match self {
            Error::InvalidAddress => push_lit(&mut out, "invalid IPv4 address"),
            Error::RecordNotFound => push_lit(&mut out, "no record found"),
            Error::Transport => push_lit(&mut out, "transport error"),
            Error::ApiError { code, message } => {
                push_lit(&mut out, "Error ");
                push_dec_u32(&mut out, *code as u32);
                push_lit(&mut out, ": ");
                push_bytes(&mut out, message.as_slice());
                proof {
                    assert(out@ =~= spec_error_message(self@));
                }
            },
            Error::ApiErrorGeneric => push_lit(&mut out, "api error"),
        }
        out
    }
}

/// The HTTP method of a built request.
#[derive(Clone, Copy, PartialEq, Eq, Structural, Debug)]
pub enum HttpMethod {
    Get,
    Put,
}

/// Mathematical model of a built request.
pub struct HttpRequestV {
    pub method: HttpMethod,
    pub url: Seq<u8>,
    pub headers: Seq<(Seq<u8>, Seq<u8>)>,
    pub body: Option<Seq<u8>>,
}

/// A fully built outbound request: method, complete URL (query included),
/// credential headers, and an optional body.  The caller only sends it.
pub struct HttpRequest {
    pub method: HttpMethod,
    pub url: Vec<u8>,
    pub headers: Vec<(Vec<u8>, Vec<u8>)>,
    pub body: Option<Vec<u8>>,
}

/// The pairwise view of a header list.
pub open spec fn headers_view(hs: Seq<(Vec<u8>, Vec<u8>)>) -> Seq<(Seq<u8>, Seq<u8>)> {
    Seq::new(hs.len(), |i: int| (hs[i].0@, hs[i].1@))
}

impl View for HttpRequest {
    type V = HttpRequestV;

    open spec fn view(&self) -> HttpRequestV {
        HttpRequestV {
            method: self.method,
            url: self.url@,
            headers: headers_view(self.headers@),
            body: match self.body {
                Option::Some(ref b) => Option::Some(b@),
                Option::None => Option::None,
            },
        }
    }
}

/// The API's base URL.
pub open spec fn api_base() -> Seq<u8> {
    ascii_of("https://api.cloudflare.com/client/v4"@)
}

/// The URL of a zone's record listing, with the query for one domain:
/// a name filter and match mode `any`, and nothing else.
pub open spec fn spec_list_url(zone_id: Seq<u8>, domain: Seq<u8>) -> Seq<u8> {
    api_base() + ascii_of("/zones/"@) + zone_id + ascii_of("/dns_records?"@) + spec_list_query(
        crate::cf_base::ListDnsRecordsParamsV {
            record_type: Option::None,
            name: Option::Some(domain),
            page: Option::None,
            per_page: Option::None,
            order: Option::None,
            direction: Option::None,
            search_match: Option::Some(SearchMatch::Any),
        },
    )
}

/// The list request: a GET of the list URL carrying exactly the
/// credential headers and no body.
pub open spec fn spec_list_request(c: CredentialsV, zone_id: Seq<u8>, domain: Seq<u8>)
    -> HttpRequestV {
    HttpRequestV {
        method: HttpMethod::Get,
        url: spec_list_url(zone_id, domain),
        headers: spec_headers(c),
        body: Option::None,
    }
}

/// The URL of one record inside a zone.
pub open spec fn spec_record_url(zone_id: Seq<u8>, record_id: Seq<u8>) -> Seq<u8> {
    api_base() + ascii_of("/zones/"@) + zone_id + ascii_of("/dns_records/"@) + record_id
}

/// The update parameters for pointing a record at an address: the
/// record's own name, the address as content, a ttl of 60, and the
/// proxied flag left unset.
pub open spec fn spec_update_params(record: DnsRecordV, ip: Ipv4Addr)
    -> crate::cf_base::UpdateDnsRecordParamsV {
    crate::cf_base::UpdateDnsRecordParamsV {
        ttl: Option::Some(60u32),
        proxied: Option::None,
        name: record.name,
        content: (DnsContentV::A { content: ip }),
    }
}

/// The update request: a PUT to the record's URL carrying exactly the
/// credential headers and the serialized update parameters.
pub open spec fn spec_update_request(
    c: CredentialsV,
    zone_id: Seq<u8>,
    record: DnsRecordV,
    ip: Ipv4Addr,
) -> HttpRequestV {
    HttpRequestV {
        method: HttpMethod::Put,
        url: spec_record_url(zone_id, record.id),
        headers: spec_headers(c),
        body: Option::Some(spec_update_body(spec_update_params(record, ip))),
    }
}

/// Whether a record is the address record for a domain: its name equals
/// the domain exactly, and its content is of the IPv4 address kind.
pub open spec fn record_matches(r: DnsRecordV, domain: Seq<u8>) -> bool {
    r.name == domain && r.content is A
}

/// The record an update works on: the first match scanning the listing
/// from its tail.
pub open spec fn spec_find_a_record(rs: Seq<DnsRecordV>, domain: Seq<u8>) -> Option<DnsRecordV>
    decreases rs.len(),
{
    if rs.len() == 0 {
        Option::None
    } else if record_matches(rs.last(), domain) {
        Option::Some(rs.last())
    } else {
        spec_find_a_record(rs.drop_last(), domain)
    }
}

/// The error taken from a failure body: the last structured error in the
/// list, a generic error for an empty list, a transport error when the
/// body does not decode.
pub open spec fn spec_error_from_body(body: Seq<u8>) -> ErrorV {
    match spec_parse_errors_doc(body) {
        Option::None => ErrorV::Transport,
        Option::Some(d) => if d.errors.len() == 0 {
            ErrorV::ApiErrorGeneric
        } else {
            ErrorV::ApiError {
                code: d.errors.last().code,
                message: d.errors.last().message,
            }
        },
    }
}

/// What the client decides once it holds the listed records: no matching
/// record means the record was never created; a matching record already
/// holding the desired address needs no mutation; anything else gets an
/// update request for exactly that record.
pub open spec fn spec_decide(
    c: CredentialsV,
    zone_id: Seq<u8>,
    domain: Seq<u8>,
    ip: Ipv4Addr,
    rs: Seq<DnsRecordV>,
) -> Result<Option<HttpRequestV>, ErrorV> {
    match spec_find_a_record(rs, domain) {
        Option::None => Result::Err(ErrorV::RecordNotFound),
        Option::Some(rec) => if rec.content == (DnsContentV::A { content: ip }) {
            Result::Ok(Option::None)
        } else {
            Result::Ok(Option::Some(spec_update_request(c, zone_id, rec, ip)))
        },
    }
}

/// The outcome of handing the list response to the client.
pub open spec fn spec_after_list(
    c: CredentialsV,
    zone_id: Seq<u8>,
    domain: Seq<u8>,
    ip: Ipv4Addr,
    status_success: bool,
    body: Seq<u8>,
) -> Result<Option<HttpRequestV>, ErrorV> {
    if !status_success {
        Result::Err(spec_error_from_body(body))
    } else {
        match spec_parse_list_env_doc(body) {
            Option::None => Result::Err(ErrorV::Transport),
            Option::Some(env) => spec_decide(c, zone_id, domain, ip, env.result),
        }
    }
}

/// The outcome of handing the update response to the client: the echoed
/// record on success, the body's error otherwise.
pub open spec fn spec_after_update(status_success: bool, body: Seq<u8>) -> Result<
    DnsRecordV,
    ErrorV,
> {
    if !status_success {
        Result::Err(spec_error_from_body(body))
    } else {
        match spec_parse_record_env_doc(body) {
            Option::None => Result::Err(ErrorV::Transport),
            Option::Some(env) => Result::Ok(env.result),
        }
    }
}

/// Mathematical model of an update in flight.
pub struct UpdateSessionV {
    pub zone_id: Seq<u8>,
    pub domain: Seq<u8>,
    pub ip: Ipv4Addr,
}

/// An update in flight: what was asked for, with the desired address
/// already parsed.
pub struct UpdateSession {
    pub zone_id: Vec<u8>,
    pub domain: Vec<u8>,
    pub ip: Ipv4Addr,
}

impl View for UpdateSession {
    type V = UpdateSessionV;

    open spec fn view(&self) -> UpdateSessionV {
        UpdateSessionV { zone_id: self.zone_id@, domain: self.domain@, ip: self.ip }
    }
}

/// The reconciliation client: the credentials it attaches to every
/// request.  Immutable once constructed, so one client may serve any
/// number of updates.
pub struct Client {
    credentials: Credentials,
}

impl View for Client {
    type V = CredentialsV;

    closed spec fn view(&self) -> CredentialsV {
        self.credentials@
    }
}

impl Client {
    /// A client authenticated by an account email and API key.
    pub fn new(email: Vec<u8>, key: Vec<u8>) -> (r: Client)
        ensures
            r@ == (CredentialsV::UserAuthKey { email: email@, key: key@ }),
    {
        let credentials = Credentials::UserAuthKey { email, key };
        Self::new_with_credentials(credentials)
    }

    /// A client authenticated by a bearer token.
    pub fn new_with_token(token: Vec<u8>) -> (r: Client)
        ensures
            r@ == (CredentialsV::UserAuthToken { token: token@ }),
    {
        let credentials = Credentials::UserAuthToken { token };
        Self::new_with_credentials(credentials)
    }

    fn new_with_credentials(credentials: Credentials) -> (r: Client)
        ensures
            r@ == credentials@,
    {
        Client { credentials }
    }

    /// The credential headers this client attaches, one pair per header.
    pub fn request_headers(&self) -> (r: Vec<(Vec<u8>, Vec<u8>)>)
        ensures
            headers_view(r@) == spec_headers(self@),
    {
        let hs = self.credentials.headers();
        proof {
            assert(headers_view(hs@) =~= spec_headers(self@));
        }
        hs
    }

    /// Build the list request for a domain's records within a zone.
    pub fn list_request(&self, zone_id: &[u8], domain: &[u8]) -> (r: HttpRequest)
        ensures
            r@ == spec_list_request(self@, zone_id@, domain@),
    {
        proof {
            reveal_strlit("https://api.cloudflare.com/client/v4");
            reveal_strlit("/zones/");
            reveal_strlit("/dns_records?");
        }
        let mut url: Vec<u8> = Vec::new();
        push_lit(&mut url, "https://api.cloudflare.com/client/v4");
        push_lit(&mut url, "/zones/");
        push_bytes(&mut url, zone_id);
        push_lit(&mut url, "/dns_records?");
        let mut params = ListDnsRecordsParams::default();
        params.name = Option::Some(copy_bytes(domain));
        params.search_match = Option::Some(SearchMatch::Any);
        let q = list_query(&params);
        push_bytes(&mut url, q.as_slice());
        let headers = self.request_headers();
        let r = HttpRequest { method: HttpMethod::Get, url, headers, body: Option::None };
        proof {
            assert(r@.url =~= spec_list_url(zone_id@, domain@));
        }
        r
    }

    /// Build the update request that points a found record at an address.
    pub fn update_request(&self, zone_id: &[u8], record: &DnsRecord, ip: Ipv4Addr) -> (r:
        HttpRequest)
        ensures
            r@ == spec_update_request(self@, zone_id@, record@, ip),
    {
        proof {
            reveal_strlit("https://api.cloudflare.com/client/v4");
            reveal_strlit("/zones/");
            reveal_strlit("/dns_records/");
        }
        let mut url: Vec<u8> = Vec::new();
        push_lit(&mut url, "https://api.cloudflare.com/client/v4");
        push_lit(&mut url, "/zones/");
        push_bytes(&mut url, zone_id);
        push_lit(&mut url, "/dns_records/");
        push_bytes(&mut url, record.id.as_slice());
        let params = UpdateDnsRecordParams {
            ttl: Option::Some(60),
            proxied: Option::None,
            name: copy_bytes(record.name.as_slice()),
            content: DnsContent::A { content: ip },
        };
        let body = update_body(&params);
        let headers = self.request_headers();
        let r = HttpRequest {
            method: HttpMethod::Put,
            url,
            headers,
            body: Option::Some(body),
        };
        proof {
            assert(r@.url =~= spec_record_url(zone_id@, record@.id));
        }
        r
    }

    /// Begin an update: parse the desired address and build the list
    /// request.  Fails with `InvalidAddress`, before anything is sent,
    /// exactly when the address text does not parse.
    pub fn update_dns_start(&self, zone_id: &[u8], domain: &[u8], ip: &[u8]) -> (r: Result<
        (UpdateSession, HttpRequest),
        Error,
    >)
        ensures
            match r {
                Result::Ok((sess, req)) => spec_parse_ipv4_text(ip@) == Option::Some(sess@.ip)
                    && sess@.zone_id == zone_id@ && sess@.domain == domain@ && req@
                    == spec_list_request(self@, zone_id@, domain@),
                Result::Err(e) => e@ == ErrorV::InvalidAddress && spec_parse_ipv4_text(ip@)
                    is None,
            },
    {
        let parsed = match parse_ipv4_text(ip) {
            Option::Some(p) => p,
            Option::None => {
                return Result::Err(Error::InvalidAddress);
            },
        };
        let sess = UpdateSession {
            zone_id: copy_bytes(zone_id),
            domain: copy_bytes(domain),
            ip: parsed,
        };
        let req = self.list_request(zone_id, domain);
        Result::Ok((sess, req))
    }

    /// The error carried by a failure body.
    fn error_from_body(&self, body: &[u8]) -> (e: Error)
        ensures
            e@ == spec_error_from_body(body@),
    {
        match parse_api_errors(body) {
            Option::None => Error::Transport,
            Option::Some(mut d) => {
                match d.errors.pop() {
                    Option::Some(err) => {
                        proof {
                            assert(crate::cf_base::errors_view(d.errors@.push(err)).last()
                                == err@);
                        }
                        Error::ApiError { code: err.code, message: err.message }
                    },
                    Option::None => Error::ApiErrorGeneric,
                }
            },
        }
    }

    /// Find the address record for a domain in a listing, scanning from
    /// the tail.  The scan order is harmless: the provider keeps at most
    /// one address record per name.
    #[verifier::loop_isolation(false)]
    pub fn find_a_record(&self, records: Vec<DnsRecord>, domain: &[u8]) -> (r: Option<DnsRecord>)
        ensures
            match r {
                Option::Some(rec) => spec_find_a_record(records_view(records@), domain@)
                    == Option::Some(rec@),
                Option::None => spec_find_a_record(records_view(records@), domain@) is None,
            },
    {
        let ghost orig = records_view(records@);
        let mut rs = records;
        proof {
            assert(records_view(rs@) =~= orig);
        }
        loop
            invariant
                spec_find_a_record(orig, domain@) == spec_find_a_record(
                    records_view(rs@),
                    domain@,
                ),
            decreases rs@.len(),
        {
            let ghost before = records_view(rs@);
            match rs.pop() {
                Option::Some(rec) => {
                    proof {
                        assert(before.len() >= 1);
                        assert(before.last() == rec@);
                        assert(records_view(rs@) =~= before.drop_last());
                    }
                    let is_a = match &rec.content {
                        DnsContent::A { .. } => true,
                        _ => false,
                    };
                    if is_a && bytes_eq(rec.name.as_slice(), domain) {
                        proof {
                            assert(rec@.name == domain@ && rec@.content is A);
                            assert(record_matches(before.last(), domain@));
                            assert(spec_find_a_record(before, domain@) == Option::Some(rec@));
                            assert(spec_find_a_record(orig, domain@) == Option::Some(rec@));
                        }
                        return Option::Some(rec);
                    }
                    proof {
                        assert(!record_matches(before.last(), domain@));
                        assert(spec_find_a_record(before, domain@) == spec_find_a_record(
                            records_view(rs@),
                            domain@,
                        ));
                    }
                },
                Option::None => {
                    proof {
                        assert(records_view(rs@) =~= Seq::<DnsRecordV>::empty());
                    }
                    return Option::None;
                },
            }
        }
    }

    /// Hand the client the list response.  `Ok(None)` means the record
    /// already points at the desired address and nothing was or will be
    /// mutated; `Ok(Some(req))` is the update request to send next.
    pub fn update_dns_after_list(
        &self,
        sess: &UpdateSession,
        status_success: bool,
        body: &[u8],
    ) -> (r: Result<Option<HttpRequest>, Error>)
        ensures
            match r {
                Result::Ok(Option::Some(req)) => spec_after_list(
                    self@,
                    sess@.zone_id,
                    sess@.domain,
                    sess@.ip,
                    status_success,
                    body@,
                ) == Result::<Option<HttpRequestV>, ErrorV>::Ok(Option::Some(req@)),
                Result::Ok(Option::None) => spec_after_list(
                    self@,
                    sess@.zone_id,
                    sess@.domain,
                    sess@.ip,
                    status_success,
                    body@,
                ) == Result::<Option<HttpRequestV>, ErrorV>::Ok(Option::<HttpRequestV>::None),
                Result::Err(e) => spec_after_list(
                    self@,
                    sess@.zone_id,
                    sess@.domain,
                    sess@.ip,
                    status_success,
                    body@,
                ) == Result::<Option<HttpRequestV>, ErrorV>::Err(e@),
            },
    {
        if !status_success {
            return Result::Err(self.error_from_body(body));
        }
        let env = match parse_list_envelope(body) {
            Option::Some(env) => env,
            Option::None => {
                return Result::Err(Error::Transport);
            },
        };
        let rec = match self.find_a_record(env.result, sess.domain.as_slice()) {
            Option::Some(rec) => rec,
            Option::None => {
                return Result::Err(Error::RecordNotFound);
            },
        };
        let already = match &rec.content {
            DnsContent::A { content } => content.a == sess.ip.a && content.b == sess.ip.b
                && content.c == sess.ip.c && content.d == sess.ip.d,
            _ => false,
        };
        if already {
            return Result::Ok(Option::None);
        }
        let req = self.update_request(sess.zone_id.as_slice(), &rec, sess.ip);
        Result::Ok(Option::Some(req))
    }

    /// Hand the client the update response.  On success the provider's
    /// echoed record is returned; it is not re-validated against the
    /// request.
    pub fn update_dns_after_update(&self, status_success: bool, body: &[u8]) -> (r: Result<
        DnsRecord,
        Error,
    >)
        ensures
            match r {
                Result::Ok(rec) => spec_after_update(status_success, body@) == Result::<
                    DnsRecordV,
                    ErrorV,
                >::Ok(rec@),
                Result::Err(e) => spec_after_update(status_success, body@) == Result::<
                    DnsRecordV,
                    ErrorV,
                >::Err(e@),
            },
    {
        if !status_success {
            return Result::Err(self.error_from_body(body));
        }
        match parse_record_envelope(body) {
            Option::Some(env) => Result::Ok(env.result),
            Option::None => Result::Err(Error::Transport),
        }
    }
}

} // verus!
