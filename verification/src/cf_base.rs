//! Wire-shape data model for a Cloudflare-compatible DNS management API:
//! record content, records, list/update request parameters, credentials,
//! and the success/error envelopes.
//!
//! Strings travel as plain bytes (`Vec<u8>`); timestamps are carried as the
//! opaque text the provider sent, since this client never interprets them.

use vstd::prelude::*;

use crate::text::ascii_of;
use crate::text::bytes_eq;
use crate::text::copy_bytes;
use crate::text::lit_bytes;
use crate::text::push_bytes;

verus! {

/// An IPv4 address, as its four octets.
#[derive(Clone, Copy, PartialEq, Eq, Structural, Debug)]
pub struct Ipv4Addr {
    pub a: u8,
    pub b: u8,
    pub c: u8,
    pub d: u8,
}

impl Ipv4Addr {
    pub fn new(a: u8, b: u8, c: u8, d: u8) -> (r: Ipv4Addr)
        ensures
            r == (Ipv4Addr { a, b, c, d }),
    {
        Ipv4Addr { a, b, c, d }
    }
}

/// Mathematical model of record content.
pub enum DnsContentV {
    A { content: Ipv4Addr },
    AAAA { content: Seq<u8> },
    CNAME { content: Seq<u8> },
    NS { content: Seq<u8> },
    MX { content: Seq<u8>, priority: u16 },
    TXT { content: Seq<u8> },
    SRV { content: Seq<u8> },
}

/// Record content: the supported record kinds together with their value.
/// Only the `A` variant is interpreted by the reconciliation client; the
/// other kinds carry their value as the provider's text.
#[derive(Debug)]
#[allow(inconsistent_fields)]
pub enum DnsContent {
    A { content: Ipv4Addr },
    AAAA { content: Vec<u8> },
    CNAME { content: Vec<u8> },
    NS { content: Vec<u8> },
    MX { content: Vec<u8>, priority: u16 },
    TXT { content: Vec<u8> },
    SRV { content: Vec<u8> },
}

/// Response-side record content; it has the same owned shape.
pub type DnsContentOwned = DnsContent;

impl View for DnsContent {
    type V = DnsContentV;

    open spec fn view(&self) -> DnsContentV {
        match self {
            DnsContent::A { content } => DnsContentV::A { content: *content },
            DnsContent::AAAA { content } => DnsContentV::AAAA { content: content@ },
            DnsContent::CNAME { content } => DnsContentV::CNAME { content: content@ },
            DnsContent::NS { content } => DnsContentV::NS { content: content@ },
            DnsContent::MX { content, priority } => DnsContentV::MX {
                content: content@,
                priority: *priority,
            },
            DnsContent::TXT { content } => DnsContentV::TXT { content: content@ },
            DnsContent::SRV { content } => DnsContentV::SRV { content: content@ },
        }
    }
}

/// Mathematical model of a provider-owned DNS record.
pub struct DnsRecordV {
    pub name: Seq<u8>,
    pub ttl: u32,
    pub modified_on: Seq<u8>,
    pub created_on: Seq<u8>,
    pub proxiable: bool,
    pub content: DnsContentV,
    pub id: Seq<u8>,
    pub proxied: bool,
}

/// A provider-owned DNS record, as read back from the API.
#[derive(Debug)]
pub struct DnsRecord {
    /// DNS record name.
    pub name: Vec<u8>,
    /// Time to live for the record; the value 1 means "automatic".
    pub ttl: u32,
    /// When the record was last modified, as the provider's timestamp text.
    pub modified_on: Vec<u8>,
    /// When the record was created, as the provider's timestamp text.
    pub created_on: Vec<u8>,
    /// Whether this record can be proxied.
    pub proxiable: bool,
    /// Kind of the record together with the record value.
    pub content: DnsContentOwned,
    /// Provider-assigned record identifier.
    pub id: Vec<u8>,
    /// Whether the record is being proxied.
    pub proxied: bool,
}

impl View for DnsRecord {
    type V = DnsRecordV;

    open spec fn view(&self) -> DnsRecordV {
        DnsRecordV {
            name: self.name@,
            ttl: self.ttl,
            modified_on: self.modified_on@,
            created_on: self.created_on@,
            proxiable: self.proxiable,
            content: self.content@,
            id: self.id@,
            proxied: self.proxied,
        }
    }
}

/// Marker for the result types the API can return inside an envelope.
pub trait ApiResult {

}

impl ApiResult for DnsRecord {

}

impl ApiResult for Vec<DnsRecord> {

}

/// Field by which a record listing can be ordered.
#[derive(Clone, Copy, PartialEq, Eq, Structural, Debug)]
pub enum ListDnsRecordsOrder {
    Type,
    Name,
    Content,
    Ttl,
    Proxied,
}

/// Direction of an ordered listing.
#[derive(Clone, Copy, PartialEq, Eq, Structural, Debug)]
pub enum OrderDirection {
    Ascending,
    Descending,
}

/// Whether every list filter must match, or at least one.
#[derive(Clone, Copy, PartialEq, Eq, Structural, Debug)]
pub enum SearchMatch {
    /// Match all search requirements.
    All,
    /// Match at least one search requirement.
    Any,
}

/// Mathematical model of the list-query parameters.
pub struct ListDnsRecordsParamsV {
    pub record_type: Option<DnsContentV>,
    pub name: Option<Seq<u8>>,
    pub page: Option<u32>,
    pub per_page: Option<u32>,
    pub order: Option<ListDnsRecordsOrder>,
    pub direction: Option<OrderDirection>,
    pub search_match: Option<SearchMatch>,
}

/// Parameters of a record-list query.  Every field is optional; an absent
/// field is left out of the serialized query entirely.
pub struct ListDnsRecordsParams {
    pub record_type: Option<DnsContent>,
    pub name: Option<Vec<u8>>,
    pub page: Option<u32>,
    pub per_page: Option<u32>,
    pub order: Option<ListDnsRecordsOrder>,
    pub direction: Option<OrderDirection>,
    pub search_match: Option<SearchMatch>,
}

impl View for ListDnsRecordsParams {
    type V = ListDnsRecordsParamsV;

    open spec fn view(&self) -> ListDnsRecordsParamsV {
        ListDnsRecordsParamsV {
            record_type: match self.record_type {
                Option::Some(c) => Option::Some(c@),
                Option::None => Option::None,
            },
            name: match self.name {
                Option::Some(n) => Option::Some(n@),
                Option::None => Option::None,
            },
            page: self.page,
            per_page: self.per_page,
            order: self.order,
            direction: self.direction,
            search_match: self.search_match,
        }
    }
}

impl Default for ListDnsRecordsParams {
    /// Parameters with every field unset.
    fn default() -> (r: ListDnsRecordsParams)
        ensures
            r@ == (ListDnsRecordsParamsV {
                record_type: Option::None,
                name: Option::None,
                page: Option::None,
                per_page: Option::None,
                order: Option::None,
                direction: Option::None,
                search_match: Option::None,
            }),
    {
        ListDnsRecordsParams {
            record_type: Option::None,
            name: Option::None,
            page: Option::None,
            per_page: Option::None,
            order: Option::None,
            direction: Option::None,
            search_match: Option::None,
        }
    }
}

/// Mathematical model of the update-request body.
pub struct UpdateDnsRecordParamsV {
    pub ttl: Option<u32>,
    pub proxied: Option<bool>,
    pub name: Seq<u8>,
    pub content: DnsContentV,
}

/// Body of a record update: a full replacement of name, content and, when
/// given, ttl and proxied.  Absent optional fields are left out of the
/// serialized body entirely.
pub struct UpdateDnsRecordParams {
    /// Time to live for the record; the value 1 means "automatic".
    pub ttl: Option<u32>,
    /// Whether the record should be proxied.
    pub proxied: Option<bool>,
    /// DNS record name.
    pub name: Vec<u8>,
    /// Kind of the record together with the record value.
    pub content: DnsContent,
}

impl View for UpdateDnsRecordParams {
    type V = UpdateDnsRecordParamsV;

    open spec fn view(&self) -> UpdateDnsRecordParamsV {
        UpdateDnsRecordParamsV {
            ttl: self.ttl,
            proxied: self.proxied,
            name: self.name@,
            content: self.content@,
        }
    }
}

/// Mathematical model of the credential variants.
pub enum CredentialsV {
    UserAuthKey { email: Seq<u8>, key: Seq<u8> },
    UserAuthToken { token: Seq<u8> },
    Service { key: Seq<u8> },
}

/// The credentials attached to every outbound request: exactly one of an
/// email/key pair, a bearer token, or a service key.
pub enum Credentials {
    UserAuthKey { email: Vec<u8>, key: Vec<u8> },
    UserAuthToken { token: Vec<u8> },
    Service { key: Vec<u8> },
}

impl View for Credentials {
    type V = CredentialsV;

    open spec fn view(&self) -> CredentialsV {
        match self {
            Credentials::UserAuthKey { email, key } => CredentialsV::UserAuthKey {
                email: email@,
                key: key@,
            },
            Credentials::UserAuthToken { token } => CredentialsV::UserAuthToken { token: token@ },
            Credentials::Service { key } => CredentialsV::Service { key: key@ },
        }
    }
}

/// The exact header list a credential variant emits.
pub open spec fn spec_headers(c: CredentialsV) -> Seq<(Seq<u8>, Seq<u8>)> {
    match c {
        CredentialsV::UserAuthKey { email, key } => seq![
            (ascii_of("X-Auth-Email"@), email),
            (ascii_of("X-Auth-Key"@), key),
        ],
        CredentialsV::UserAuthToken { token } => seq![
            (ascii_of("Authorization"@), ascii_of("Bearer "@) + token),
        ],
        CredentialsV::Service { key } => seq![(ascii_of("X-Auth-User-Service-Key"@), key)],
    }
}

impl Credentials {
    /// The ordered header name/value pairs for this credential variant,
    /// recomputed on every call: exactly the documented headers, nothing else.
    pub fn headers(&self) -> (r: Vec<(Vec<u8>, Vec<u8>)>)
        ensures
            r@.len() == spec_headers(self@).len(),
            forall|i: int|
                0 <= i < r@.len() ==> (#[trigger] r@[i].0@, r@[i].1@) == spec_headers(self@)[i],
    {
        proof {
            reveal_strlit("X-Auth-Email");
            reveal_strlit("X-Auth-Key");
            reveal_strlit("Authorization");
            reveal_strlit("Bearer ");
            reveal_strlit("X-Auth-User-Service-Key");
        }
        let mut r: Vec<(Vec<u8>, Vec<u8>)> = Vec::new();
        match self {
            Credentials::UserAuthKey { email, key } => {
                r.push((lit_bytes("X-Auth-Email"), copy_bytes(email.as_slice())));
                r.push((lit_bytes("X-Auth-Key"), copy_bytes(key.as_slice())));
            },
            Credentials::UserAuthToken { token } => {
                let mut v = lit_bytes("Bearer ");
                push_bytes(&mut v, token.as_slice());
                r.push((lit_bytes("Authorization"), v));
            },
            Credentials::Service { key } => {
                r.push((lit_bytes("X-Auth-User-Service-Key"), copy_bytes(key.as_slice())));
            },
        }
        r
    }
}

/// The record views of a record sequence.
pub open spec fn records_view(rs: Seq<DnsRecord>) -> Seq<DnsRecordV> {
    Seq::new(rs.len(), |i: int| rs[i]@)
}

/// Mathematical model of a structured API error.
pub struct ApiErrorV {
    pub code: u16,
    pub message: Seq<u8>,
}

/// A structured error returned by the provider.  Equality is defined over
/// `code` and `message` only.
#[derive(Debug)]
pub struct ApiError {
    pub code: u16,
    pub message: Vec<u8>,
}

impl View for ApiError {
    type V = ApiErrorV;

    open spec fn view(&self) -> ApiErrorV {
        ApiErrorV { code: self.code, message: self.message@ }
    }
}

impl PartialEq for ApiError {
    fn eq(&self, other: &Self) -> (r: bool) {
        self.code == other.code && bytes_eq(self.message.as_slice(), other.message.as_slice())
    }
}

impl vstd::std_specs::cmp::PartialEqSpecImpl for ApiError {
    open spec fn obeys_eq_spec() -> bool {
        true
    }

    open spec fn eq_spec(&self, other: &Self) -> bool {
        self@ == other@
    }
}

impl Eq for ApiError {

}

/// The error views of an error sequence.
pub open spec fn errors_view(es: Seq<ApiError>) -> Seq<ApiErrorV> {
    Seq::new(es.len(), |i: int| es[i]@)
}

/// Mathematical model of the failure wrapper.
pub struct ApiErrorsV {
    pub errors: Seq<ApiErrorV>,
}

/// The failure wrapper returned for a non-success response: a list of
/// structured errors, in the order the provider sent them.  Equality is
/// defined over the error list only.
#[derive(Debug)]
pub struct ApiErrors {
    pub errors: Vec<ApiError>,
}

impl View for ApiErrors {
    type V = ApiErrorsV;

    open spec fn view(&self) -> ApiErrorsV {
        ApiErrorsV { errors: Seq::new(self.errors@.len(), |i: int| self.errors@[i]@) }
    }
}

impl PartialEq for ApiErrors {
    fn eq(&self, other: &Self) -> (r: bool) {
        if self.errors.len() != other.errors.len() {
            proof {
                assert(self@.errors.len() == self.errors@.len());
                assert(other@.errors.len() == other.errors@.len());
            }
            return false;
        }
        let n = self.errors.len();
        let mut i: usize = 0;
        while i < n
            invariant
                i <= n,
                n == self.errors@.len(),
                n == other.errors@.len(),
                forall|k: int| 0 <= k < i ==> self.errors@[k]@ == other.errors@[k]@,
            decreases n - i,
        {
            let a = &self.errors[i];
            let b = &other.errors[i];
            if !(a.code == b.code && bytes_eq(a.message.as_slice(), b.message.as_slice())) {
                proof {
                    assert(self.errors@[i as int]@ != other.errors@[i as int]@);
                    assert(self@.errors[i as int] != other@.errors[i as int]);
                }
                return false;
            }
            i = i + 1;
        }
        proof {
            assert(self@.errors =~= other@.errors);
        }
        true
    }
}

impl vstd::std_specs::cmp::PartialEqSpecImpl for ApiErrors {
    open spec fn obeys_eq_spec() -> bool {
        true
    }

    open spec fn eq_spec(&self, other: &Self) -> bool {
        self@.errors == other@.errors
    }
}

impl Eq for ApiErrors {

}

/// Mathematical model of the success envelope.
pub struct ApiSuccessV<R> {
    pub result: R,
    pub result_info: Option<Seq<u8>>,
    pub messages: Seq<u8>,
    pub errors: Seq<ApiErrorV>,
}

/// The success envelope around an API result: the result itself, optional
/// listing metadata, opaque messages (carried as the raw JSON text), and a
/// list of structured errors, present but empty on success.
pub struct ApiSuccess<ResultType> {
    pub result: ResultType,
    pub result_info: Option<Vec<u8>>,
    pub messages: Vec<u8>,
    pub errors: Vec<ApiError>,
}

impl<ResultType: View> View for ApiSuccess<ResultType> {
    type V = ApiSuccessV<<ResultType as View>::V>;

    open spec fn view(&self) -> ApiSuccessV<<ResultType as View>::V> {
        ApiSuccessV {
            result: self.result@,
            result_info: match self.result_info {
                Option::Some(ref v) => Option::Some(v@),
                Option::None => Option::None,
            },
            messages: self.messages@,
            errors: Seq::new(self.errors@.len(), |i: int| self.errors@[i]@),
        }
    }
}

} // verus!
