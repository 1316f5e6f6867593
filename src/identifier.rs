//! Identifiers (canonical ids and handles) and resolved identity documents.
use vstd::prelude::*;

verus! {

pub open spec fn is_ascii_lower(c: char) -> bool {
    'a' <= c <= 'z'
}

pub open spec fn is_ascii_alnum(c: char) -> bool {
    'a' <= c <= 'z' || 'A' <= c <= 'Z' || '0' <= c <= '9'
}

pub open spec fn is_ascii_letter(c: char) -> bool {
    'a' <= c <= 'z' || 'A' <= c <= 'Z'
}

/// A character that may end a DID: a letter, digit, `.`, `_` or `-`.
pub open spec fn is_did_end_char(c: char) -> bool {
    is_ascii_alnum(c) || c == '.' || c == '_' || c == '-'
}

/// A character of a DID's method-specific id: those that may end it, and
/// `:` and `%`.
pub open spec fn is_did_id_char(c: char) -> bool {
    is_did_end_char(c) || c == ':' || c == '%'
}

/// DID syntax: at most 2048 characters (all ASCII, so as many bytes), of
/// the form `did:<method>:<id>`, the method lowercase letters, the id
/// non-empty, of id characters, and ending in neither `:` nor `%`.
pub open spec fn is_did_syntax(s: Seq<char>) -> bool {
    &&& s.len() <= 2048
    &&& s.len() >= 4
    &&& s.subrange(0, 4) == "did:"@
    &&& exists|m: int|
        4 < m < s.len() - 1 && #[trigger] s[m] == ':' && (forall|i: int|
            4 <= i < m ==> is_ascii_lower(#[trigger] s[i])) && (forall|i: int|
            m < i < s.len() ==> is_did_id_char(#[trigger] s[i]))
    &&& is_did_end_char(s.last())
}

/// Some character from `i` through `j` is a dot.
pub open spec fn dot_within(s: Seq<char>, i: int, j: int) -> bool {
    exists|k: int| i <= k <= j && #[trigger] s[k] == '.'
}

/// Handle syntax: at most 253 characters (all ASCII, so as many bytes);
/// two or more dot-separated labels, each 1 to 63 letters, digits or
/// hyphens, none starting or ending with a hyphen; the last label starts
/// with a letter.
pub open spec fn is_handle_syntax(s: Seq<char>) -> bool {
    &&& s.len() <= 253
    &&& forall|i: int| 0 <= i < s.len() ==> is_ascii_alnum(#[trigger] s[i]) || s[i] == '-' || s[i] == '.'
    &&& forall|i: int|
        0 <= i < s.len() && (#[trigger] s[i] == '.' || s[i] == '-') ==> 0 < i < s.len() - 1
            && s[i - 1] != '.' && s[i + 1] != '.'
    &&& forall|i: int| 0 <= i && i + 63 < s.len() ==> #[trigger] dot_within(s, i, i + 63)
    &&& exists|d: int|
        0 < d < s.len() - 1 && #[trigger] s[d] == '.' && is_ascii_letter(s[d + 1]) && forall|k: int|
            d < k < s.len() ==> #[trigger] s[k] != '.'
}

/// Relies on `atrium_api::types::string::Did::from_str` (`Did::new`): it
/// keeps the text as it stands when its length is at most 2048 bytes and it
/// matches `^did:[a-z]+:[a-zA-Z0-9._:%-]*[a-zA-Z0-9._-]$`, and rejects it
/// otherwise.
#[verifier::external_body]
pub(crate) fn parse_did(s: &str) -> (r: Option<String>)
    ensures
        r matches Some(d) ==> d@ == s@,
        r is Some <==> is_did_syntax(s@),
{
    s.parse::<atrium_api::types::string::Did>().ok().map(String::from)
}

/// Relies on `atrium_api::types::string::Handle::from_str` (`Handle::new`):
/// it keeps the text as it stands when its length is at most 253 bytes and
/// it matches
/// `^([a-zA-Z0-9]([a-zA-Z0-9-]{0,61}[a-zA-Z0-9])?\.)+[a-zA-Z]([a-zA-Z0-9-]{0,61}[a-zA-Z0-9])?$`,
/// and rejects it otherwise.
#[verifier::external_body]
fn parse_handle(s: &str) -> (r: Option<String>)
    ensures
        r matches Some(h) ==> h@ == s@,
        r is Some <==> is_handle_syntax(s@),
{
    s.parse::<atrium_api::types::string::Handle>().ok().map(String::from)
}

/// A canonical identifier or a domain-based handle.
pub enum Identifier {
    Did(String),
    Handle(String),
}

/// Mathematical model of an `Identifier`.
pub ghost enum IdentifierModel {
    Did(Seq<char>),
    Handle(Seq<char>),
}

impl View for Identifier {
    type V = IdentifierModel;

    open spec fn view(&self) -> IdentifierModel {
        match self {
            Identifier::Did(d) => IdentifierModel::Did(d@),
            Identifier::Handle(h) => IdentifierModel::Handle(h@),
        }
    }
}

/// How a text reads as an identifier: a canonical id where it has that
/// syntax, else a handle, else nothing.
pub open spec fn identifier_of(s: Seq<char>) -> Option<IdentifierModel> {
    if is_did_syntax(s) {
        Some(IdentifierModel::Did(s))
    } else if is_handle_syntax(s) {
        Some(IdentifierModel::Handle(s))
    } else {
        None
    }
}

impl Identifier {
    /// Reads a text as a canonical id if it can, otherwise as a handle.
    pub fn parse(s: &str) -> (r: Option<Identifier>)
        ensures
            r matches Some(i) ==> identifier_of(s@) == Some(i@),
            r is None <==> identifier_of(s@) is None,
    {
        match parse_did(s) {
            Some(d) => Some(Identifier::Did(d)),
            None => match parse_handle(s) {
                Some(h) => Some(Identifier::Handle(h)),
                None => None,
            },
        }
    }
}

/// The document a canonical identifier resolves to: its id, its
/// data-service endpoint if it declares a usable one, and the ids of its
/// verification methods.
pub struct IdentityDocument {
    pub id: String,
    pub pds_endpoint: Option<String>,
    pub verification_methods: Vec<String>,
}

pub ghost struct DocumentModel {
    pub id: Seq<char>,
    pub pds_endpoint: Option<Seq<char>>,
    pub verification_methods: Seq<Seq<char>>,
}

impl View for IdentityDocument {
    type V = DocumentModel;

    open spec fn view(&self) -> DocumentModel {
        DocumentModel {
            id: self.id@,
            pds_endpoint: match self.pds_endpoint {
                Some(e) => Some(e@),
                None => None,
            },
            verification_methods: self.verification_methods@.map_values(|m: String| m@),
        }
    }
}

} // verus!
