//! Resolution of an identifier to its identity document: a handle goes
//! through a DNS TXT lookup, then an HTTPS well-known fallback, to a
//! canonical id, whose document is then fetched.
//!
//! The resolver is a state machine. Each state names the one network
//! request it awaits (`request`); the caller performs it, with a timeout,
//! and hands the outcome back as an `Event` (`step`).
use vstd::prelude::*;
use crate::identifier::{is_did_syntax, DocumentModel, Identifier, IdentifierModel, IdentityDocument};

verus! {

/// A character with the Unicode White_Space property.
pub open spec fn is_white_space(c: char) -> bool {
    let u = c as u32;
    (0x9 <= u <= 0xd) || u == 0x20 || u == 0x85 || u == 0xa0 || u == 0x1680 || (0x2000 <= u
        <= 0x200a) || u == 0x2028 || u == 0x2029 || u == 0x202f || u == 0x205f || u == 0x3000
}

/// The text without its leading White_Space characters.
pub open spec fn trim_start(s: Seq<char>) -> Seq<char>
    decreases s.len(),
{
    if s.len() > 0 && is_white_space(s[0]) {
        trim_start(s.drop_first())
    } else {
        s
    }
}

/// The text without its trailing White_Space characters.
pub open spec fn trim_end(s: Seq<char>) -> Seq<char>
    decreases s.len(),
{
    if s.len() > 0 && is_white_space(s.last()) {
        trim_end(s.drop_last())
    } else {
        s
    }
}

/// The text without leading and trailing White_Space characters.
pub open spec fn trimmed(s: Seq<char>) -> Seq<char> {
    trim_end(trim_start(s))
}

/// Relies on `str::trim`: it removes leading and trailing characters with
/// the Unicode White_Space property.
#[verifier::external_body]
fn trim_text(s: &str) -> (r: String)
    ensures
        r@ == trimmed(s@),
{
    s.trim().to_string()
}

/// Why a network attempt produced nothing.
#[derive(PartialEq, Eq, Structural, Debug, Clone, Copy)]
pub enum Fault {
    NotFound,
    Malformed,
    Timeout,
}

/// Why a resolution failed.
#[derive(PartialEq, Eq, Structural, Debug, Clone, Copy)]
pub enum ResolutionError {
    NotFound,
    HandleNotFound,
    Malformed,
    Timeout,
}

/// The outcome of the request a resolution state awaits.
pub enum Event {
    /// The TXT records of the handle's `_atproto` name.
    TxtRecords(Result<Vec<String>, Fault>),
    /// The body of the handle's well-known document.
    WellKnown(Result<String, Fault>),
    /// The identity document of a canonical id.
    Document(Result<IdentityDocument, Fault>),
}

pub ghost enum EventModel {
    TxtRecords(Result<Seq<Seq<char>>, Fault>),
    WellKnown(Result<Seq<char>, Fault>),
    Document(Result<DocumentModel, Fault>),
}

impl View for Event {
    type V = EventModel;

    open spec fn view(&self) -> EventModel {
        match self {
            Event::TxtRecords(Ok(v)) => EventModel::TxtRecords(
                Ok(v@.map_values(|s: String| s@)),
            ),
            Event::TxtRecords(Err(f)) => EventModel::TxtRecords(Err(*f)),
            Event::WellKnown(Ok(b)) => EventModel::WellKnown(Ok(b@)),
            Event::WellKnown(Err(f)) => EventModel::WellKnown(Err(*f)),
            Event::Document(Ok(d)) => EventModel::Document(Ok(d@)),
            Event::Document(Err(f)) => EventModel::Document(Err(*f)),
        }
    }
}

/// Where a resolution stands.
pub enum Resolution {
    AwaitTxt { handle: String },
    AwaitWellKnown { handle: String },
    AwaitDocument { did: String },
    Resolved(IdentityDocument),
    Failed(ResolutionError),
}

pub ghost enum ResolutionModel {
    AwaitTxt { handle: Seq<char> },
    AwaitWellKnown { handle: Seq<char> },
    AwaitDocument { did: Seq<char> },
    Resolved(DocumentModel),
    Failed(ResolutionError),
}

impl View for Resolution {
    type V = ResolutionModel;

    open spec fn view(&self) -> ResolutionModel {
        match self {
            Resolution::AwaitTxt { handle } => ResolutionModel::AwaitTxt { handle: handle@ },
            Resolution::AwaitWellKnown { handle } => ResolutionModel::AwaitWellKnown {
                handle: handle@,
            },
            Resolution::AwaitDocument { did } => ResolutionModel::AwaitDocument { did: did@ },
            Resolution::Resolved(d) => ResolutionModel::Resolved(d@),
            Resolution::Failed(e) => ResolutionModel::Failed(*e),
        }
    }
}

/// The network request a resolution state awaits.
pub enum Request {
    /// Look up the TXT records of this DNS name.
    Txt { name: String },
    /// GET this URL and read its body as text.
    WellKnown { url: String },
    /// Fetch the identity document of this canonical id.
    Document { did: String },
    /// Nothing: the resolution is over.
    Done,
}

/// Whether a TXT record starts with `did=`.
pub open spec fn is_did_record(r: Seq<char>) -> bool {
    r.len() >= 4 && r.subrange(0, 4) == "did="@
}

/// The canonical id that a handle's TXT records publish: the first record
/// that starts with `did=` decides, and what follows must be a canonical id.
pub open spec fn txt_did(records: Seq<Seq<char>>) -> Option<Seq<char>>
    decreases records.len(),
{
    if records.len() == 0 {
        None
    } else if is_did_record(records[0]) {
        let rest = records[0].subrange(4, records[0].len() as int);
        if is_did_syntax(rest) {
            Some(rest)
        } else {
            None
        }
    } else {
        txt_did(records.drop_first())
    }
}

/// The canonical id that a well-known body publishes: the body trimmed of
/// whitespace, if that is a canonical id.
pub open spec fn well_known_did(body: Seq<char>) -> Option<Seq<char>> {
    if is_did_syntax(trimmed(body)) {
        Some(trimmed(body))
    } else {
        None
    }
}

/// Where resolving an identifier starts.
pub open spec fn start_of(ident: IdentifierModel) -> ResolutionModel {
    match ident {
        IdentifierModel::Did(d) => ResolutionModel::AwaitDocument { did: d },
        IdentifierModel::Handle(h) => ResolutionModel::AwaitTxt { handle: h },
    }
}

/// Whether a state awaits this kind of event.
pub open spec fn awaits(s: ResolutionModel, e: EventModel) -> bool {
    match (s, e) {
        (ResolutionModel::AwaitTxt { .. }, EventModel::TxtRecords(_)) => true,
        (ResolutionModel::AwaitWellKnown { .. }, EventModel::WellKnown(_)) => true,
        (ResolutionModel::AwaitDocument { .. }, EventModel::Document(_)) => true,
        _ => false,
    }
}

/// One resolution step. A published TXT id leads to its document; no id in
/// DNS (or a DNS fault) falls back to the well-known document; no id there
/// either ends in `HandleNotFound`. A fetched document must carry the id it
/// was fetched for, else it is malformed. An event the state does not
/// await changes nothing.
pub open spec fn next(s: ResolutionModel, e: EventModel) -> ResolutionModel {
    match (s, e) {
        (ResolutionModel::AwaitTxt { handle }, EventModel::TxtRecords(r)) => match r {
            Ok(records) => match txt_did(records) {
                Some(d) => ResolutionModel::AwaitDocument { did: d },
                None => ResolutionModel::AwaitWellKnown { handle },
            },
            Err(_) => ResolutionModel::AwaitWellKnown { handle },
        },
        (ResolutionModel::AwaitWellKnown { .. }, EventModel::WellKnown(r)) => match r {
            Ok(body) => match well_known_did(body) {
                Some(d) => ResolutionModel::AwaitDocument { did: d },
                None => ResolutionModel::Failed(ResolutionError::HandleNotFound),
            },
            Err(_) => ResolutionModel::Failed(ResolutionError::HandleNotFound),
        },
        (ResolutionModel::AwaitDocument { did }, EventModel::Document(r)) => match r {
            Ok(doc) => if doc.id == did {
                ResolutionModel::Resolved(doc)
            } else {
                ResolutionModel::Failed(ResolutionError::Malformed)
            },
            Err(Fault::NotFound) => ResolutionModel::Failed(ResolutionError::NotFound),
            Err(Fault::Malformed) => ResolutionModel::Failed(ResolutionError::Malformed),
            Err(Fault::Timeout) => ResolutionModel::Failed(ResolutionError::Timeout),
        },
        _ => s,
    }
}

/// The DNS name whose TXT records publish a handle's canonical id.
pub open spec fn txt_name(handle: Seq<char>) -> Seq<char> {
    "_atproto."@ + handle
}

/// The URL whose body publishes a handle's canonical id.
pub open spec fn well_known_url(handle: Seq<char>) -> Seq<char> {
    "https://"@ + handle + "/.well-known/atproto-did"@
}

/// Reads the canonical id out of a handle's TXT records.
pub fn did_from_txt(records: &Vec<String>) -> (r: Option<String>)
    ensures
        r matches Some(d) ==> txt_did(records@.map_values(|s: String| s@)) == Some(d@),
        r is None <==> txt_did(records@.map_values(|s: String| s@)) is None,
{
    let ghost all = records@.map_values(|s: String| s@);
    assert(all.subrange(0, all.len() as int) =~= all);
    let mut i: usize = 0;
    while i < records.len()
        invariant
            i <= records.len(),
            all == records@.map_values(|s: String| s@),
            txt_did(all) == txt_did(all.subrange(i as int, all.len() as int)),
        decreases records.len() - i,
    {
        let rec = records[i].as_str();
        let ghost tail = all.subrange(i as int, all.len() as int);
        assert(tail[0] == rec@);
        let n = rec.unicode_len();
        if n >= 4 {
            let head = rec.substring_char(0, 4);
            proof {
                reveal_strlit("did=");
            }
            if head.get_char(0) == 'd' && head.get_char(1) == 'i' && head.get_char(2) == 'd'
                && head.get_char(3) == '=' {
                assert(head@ =~= "did="@);
                let rest = rec.substring_char(4, n);
                return match crate::identifier::parse_did(rest) {
                    Some(d) => Some(d),
                    None => None,
                };
            }
            assert(!is_did_record(rec@)) by {
                if is_did_record(rec@) {
                    assert(head@ =~= "did="@);
                    assert(head@[0] == 'd');
                }
            }
        }
        assert(tail.drop_first() =~= all.subrange(i as int + 1, all.len() as int));
        i = i + 1;
    }
    None
}

/// Reads the canonical id out of a handle's well-known body.
pub fn did_from_well_known(body: &str) -> (r: Option<String>)
    ensures
        r matches Some(d) ==> well_known_did(body@) == Some(d@),
        r is None <==> well_known_did(body@) is None,
{
    let t = trim_text(body);
    crate::identifier::parse_did(t.as_str())
}

impl Resolution {
    /// Where resolving `ident` starts: a canonical id is fetched at once, a
    /// handle is first looked up in DNS.
    pub fn start(ident: Identifier) -> (r: Resolution)
        ensures
            r@ == start_of(ident@),
    {
        match ident {
            Identifier::Did(d) => Resolution::AwaitDocument { did: d },
            Identifier::Handle(h) => Resolution::AwaitTxt { handle: h },
        }
    }

    /// The request this state awaits.
    pub fn request(&self) -> (r: Request)
        ensures
            self@ matches ResolutionModel::AwaitTxt { handle } ==> r matches Request::Txt { name }
                && name@ == txt_name(handle),
            self@ matches ResolutionModel::AwaitWellKnown { handle } ==> r matches Request::WellKnown { url }
                && url@ == well_known_url(handle),
            self@ matches ResolutionModel::AwaitDocument { did } ==> r matches Request::Document { did: d }
                && d@ == did,
            self@ is Resolved || self@ is Failed ==> r is Done,
    {
        match self {
            Resolution::AwaitTxt { handle } => {
                let mut name = String::from_str("_atproto.");
                name.append(handle.as_str());
                Request::Txt { name }
            },
            Resolution::AwaitWellKnown { handle } => {
                let mut url = String::from_str("https://");
                url.append(handle.as_str());
                url.append("/.well-known/atproto-did");
                Request::WellKnown { url }
            },
            Resolution::AwaitDocument { did } => Request::Document { did: did.clone() },
            _ => Request::Done,
        }
    }

    /// Whether the resolution is over.
    pub fn is_done(&self) -> (r: bool)
        ensures
            r == (self@ is Resolved || self@ is Failed),
    {
        match self {
            Resolution::Resolved(_) | Resolution::Failed(_) => true,
            _ => false,
        }
    }

    /// Takes in the outcome of the awaited request.
    pub fn step(self, event: Event) -> (r: Resolution)
        ensures
            r@ == next(self@, event@),
    {
        match (self, event) {
            (Resolution::AwaitTxt { handle }, Event::TxtRecords(res)) => match res {
                Ok(records) => match did_from_txt(&records) {
                    Some(d) => Resolution::AwaitDocument { did: d },
                    None => Resolution::AwaitWellKnown { handle },
                },
                Err(_) => Resolution::AwaitWellKnown { handle },
            },
            (Resolution::AwaitWellKnown { handle }, Event::WellKnown(res)) => match res {
                Ok(body) => match did_from_well_known(body.as_str()) {
                    Some(d) => Resolution::AwaitDocument { did: d },
                    None => Resolution::Failed(ResolutionError::HandleNotFound),
                },
                Err(_) => Resolution::Failed(ResolutionError::HandleNotFound),
            },
            (Resolution::AwaitDocument { did }, Event::Document(res)) => match res {
                Ok(doc) => if doc.id == did {
                    Resolution::Resolved(doc)
                } else {
                    Resolution::Failed(ResolutionError::Malformed)
                },
                Err(Fault::NotFound) => Resolution::Failed(ResolutionError::NotFound),
                Err(Fault::Malformed) => Resolution::Failed(ResolutionError::Malformed),
                Err(Fault::Timeout) => Resolution::Failed(ResolutionError::Timeout),
            },
            (s, _) => s,
        }
    }
}

/// How many awaited requests a state can still take, at most.
pub open spec fn remaining_requests(s: ResolutionModel) -> nat {
    match s {
        ResolutionModel::AwaitTxt { .. } => 3,
        ResolutionModel::AwaitWellKnown { .. } => 2,
        ResolutionModel::AwaitDocument { .. } => 1,
        _ => 0,
    }
}

/// A canonical id whose document is found resolves to a document with that
/// very id; a document under another id is refused as malformed.
pub proof fn lemma_resolved_document_has_queried_id(did: Seq<char>, doc: DocumentModel)
    ensures
        start_of(IdentifierModel::Did(did)) == (ResolutionModel::AwaitDocument { did }),
        doc.id == did ==> next(start_of(IdentifierModel::Did(did)), EventModel::Document(Ok(doc)))
            == ResolutionModel::Resolved(doc),
        next(start_of(IdentifierModel::Did(did)), EventModel::Document(Ok(doc))) matches ResolutionModel::Resolved(d)
            ==> d.id == did,
{
}

/// No step resolves to a document other than one carrying the id it awaited.
pub proof fn lemma_step_resolves_only_awaited_id(s: ResolutionModel, e: EventModel)
    requires
        !(s is Resolved),
    ensures
        next(s, e) matches ResolutionModel::Resolved(d) ==> s matches ResolutionModel::AwaitDocument { did } && d.id == did,
{
}

/// A handle whose DNS record publishes `x` leads to fetching `x`'s
/// document; so does one without a DNS record (absent, or any fault) whose
/// well-known document publishes `x`. From there both resolutions are the
/// same state, so they end alike.
pub proof fn lemma_fallback_equivalence(
    handle: Seq<char>,
    x: Seq<char>,
    records: Seq<Seq<char>>,
    dns_miss: Result<Seq<Seq<char>>, Fault>,
    body: Seq<char>,
)
    requires
        txt_did(records) == Some(x),
        dns_miss matches Ok(rs) ==> txt_did(rs) is None,
        well_known_did(body) == Some(x),
    ensures
        next(start_of(IdentifierModel::Handle(handle)), EventModel::TxtRecords(Ok(records)))
            == (ResolutionModel::AwaitDocument { did: x }),
        next(
            next(start_of(IdentifierModel::Handle(handle)), EventModel::TxtRecords(dns_miss)),
            EventModel::WellKnown(Ok(body)),
        ) == (ResolutionModel::AwaitDocument { did: x }),
{
}

/// A handle that neither DNS nor its well-known document maps to a
/// canonical id (whether absent, malformed or timed out) fails with
/// `HandleNotFound` after exactly those two requests.
pub proof fn lemma_missing_handle_not_found(
    handle: Seq<char>,
    dns: Result<Seq<Seq<char>>, Fault>,
    well_known: Result<Seq<char>, Fault>,
)
    requires
        dns matches Ok(rs) ==> txt_did(rs) is None,
        well_known matches Ok(b) ==> well_known_did(b) is None,
    ensures
        next(
            next(start_of(IdentifierModel::Handle(handle)), EventModel::TxtRecords(dns)),
            EventModel::WellKnown(well_known),
        ) == ResolutionModel::Failed(ResolutionError::HandleNotFound),
{
}

/// Every awaited outcome moves a resolution strictly closer to its end, and
/// an ended one awaits nothing: a resolution takes at most three requests.
pub proof fn lemma_resolution_terminates(ident: IdentifierModel, s: ResolutionModel, e: EventModel)
    ensures
        awaits(s, e) ==> remaining_requests(next(s, e)) < remaining_requests(s),
        (s is Resolved || s is Failed) ==> !awaits(s, e) && next(s, e) == s,
        remaining_requests(start_of(ident)) <= 3,
{
}

} // verus!
