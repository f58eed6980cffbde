use vstd::prelude::*;
use vstd::utf8::{decode_utf8, valid_utf8};
use crate::text::{contains_char, owned, second_field, second_field_of, views};

verus! {

/// What `base64_url::decode` gives for the text `s`: `None` when it is not unpadded URL-safe
/// Base64, otherwise the bytes it encodes.
pub uninterp spec fn base64_url_decoded(s: Seq<char>) -> Option<Seq<u8>>;

/// Calls `base64_url::decode` on the text's bytes; the contract claims only that the result is
/// `base64_url_decoded(s)`.
#[verifier::external_body]
fn decode_base64_url(s: &str) -> (r: Option<Vec<u8>>)
    ensures
        match base64_url_decoded(s@) {
            None => r is None,
            Some(b) => r matches Some(v) && v@ == b,
        },
{
    base64_url::decode(s).ok()
}

/// Calls `std::str::from_utf8`, which succeeds exactly on well-formed UTF-8 and then holds the
/// characters the bytes encode, and copies the text into a `String`.
#[verifier::external_body]
fn utf8_text(bytes: &[u8]) -> (r: Option<String>)
    ensures
        r is Some <==> valid_utf8(bytes@),
        r matches Some(s) ==> s@ == decode_utf8(bytes@),
{
    match std::str::from_utf8(bytes) {
        Ok(s) => Some(s.to_string()),
        Err(_) => None,
    }
}

/// The `Authorization` header of a request, as the role extractor sees it.
pub enum AuthorizationHeader {
    /// The request has no such header.
    Missing,
    /// The header holds characters that are not visible ASCII.
    Unreadable,
    Value(String),
}

/// Where extracting the roles of a request stands.
pub enum RolesStep {
    /// The roles are known.
    Roles(Vec<String>),
    /// The token's payload, a JSON text whose `roles` member holds the roles.
    ParsePayload(String),
}

/// The second field of the header split at spaces: the token of `Bearer <token>`.
pub open spec fn bearer_token(v: Seq<char>) -> Seq<char> {
    second_field(v, ' ')
}

/// The payload segment of a token: its second field split at `.`.
pub open spec fn payload_segment(v: Seq<char>) -> Seq<char> {
    second_field(bearer_token(v), '.')
}

/// A header value the extractor reads past its first checks has a token with a `.`; on other
/// values that pass those checks, the extractor has no payload segment to read.
pub open spec fn header_splittable(v: Seq<char>) -> bool {
    (v.contains(' ') && v.contains('.')) ==> bearer_token(v).contains('.')
}

impl AuthorizationHeader {
    /// Whether the extractor can read the header without failing: a value with a space and a
    /// `.` must have a `.` in its token.
    pub fn is_splittable(&self) -> (r: bool)
        ensures
            r == match self {
                AuthorizationHeader::Value(v) => header_splittable(v@),
                _ => true,
            },
    {
        match self {
            AuthorizationHeader::Value(v) => {
                if contains_char(v.as_str(), ' ') && contains_char(v.as_str(), '.') {
                    let token = second_field_of(v.as_str(), ' ');
                    contains_char(token.as_str(), '.')
                } else {
                    true
                }
            },
            _ => true,
        }
    }
}

/// The roles of a request, as far as its `Authorization` header tells them. Azure has checked
/// the token already; no header means no authentication is set up, and the caller is an
/// `admin`. A header that cannot be read as a bearer token with a Base64 UTF-8 payload grants
/// nothing. Otherwise the payload is handed back for its `roles` member to be read.
pub fn extract_roles(header: &AuthorizationHeader) -> (r: RolesStep)
    requires
        header matches AuthorizationHeader::Value(v) ==> header_splittable(v@),
    ensures
        match header {
            AuthorizationHeader::Missing => r matches RolesStep::Roles(v) && views(v@) == seq!["admin"@],
            AuthorizationHeader::Unreadable => r matches RolesStep::Roles(v) && v@.len() == 0,
            AuthorizationHeader::Value(h) => if !h@.contains(' ') || !h@.contains('.') {
                r matches RolesStep::Roles(v) && v@.len() == 0
            } else {
                match base64_url_decoded(payload_segment(h@)) {
                    None => r matches RolesStep::Roles(v) && v@.len() == 0,
                    Some(bytes) => if valid_utf8(bytes) {
                        r matches RolesStep::ParsePayload(t) && t@ == decode_utf8(bytes)
                    } else {
                        r matches RolesStep::Roles(v) && v@.len() == 0
                    },
                }
            },
        },
{
    match header {
        AuthorizationHeader::Missing => {
            let mut v: Vec<String> = Vec::new();
            v.push(owned("admin"));
            assert(views(v@) =~= seq!["admin"@]);
            RolesStep::Roles(v)
        },
        AuthorizationHeader::Unreadable => RolesStep::Roles(Vec::new()),
        AuthorizationHeader::Value(h) => {
            if !contains_char(h.as_str(), ' ') || !contains_char(h.as_str(), '.') {
                return RolesStep::Roles(Vec::new());
            }
            let token = second_field_of(h.as_str(), ' ');
            let payload = second_field_of(token.as_str(), '.');
            match decode_base64_url(payload.as_str()) {
                None => RolesStep::Roles(Vec::new()),
                Some(bytes) => match utf8_text(bytes.as_slice()) {
                    None => RolesStep::Roles(Vec::new()),
                    Some(t) => RolesStep::ParsePayload(t),
                },
            }
        },
    }
}

/// The roles a token payload grants: its `roles` member when it has one; none when it has
/// none or is not a payload at all (`parsed` is `None`).
pub fn roles_from_payload(parsed: Option<Option<Vec<String>>>) -> (r: Vec<String>)
    ensures
        r@ == match parsed {
            Some(Some(roles)) => roles@,
            _ => Seq::<String>::empty(),
        },
{
    match parsed {
        Some(Some(roles)) => roles,
        _ => Vec::new(),
    }
}

} // verus!
