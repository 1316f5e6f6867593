use bild::identifier::{Identifier, IdentityDocument};
use bild::resolver::{
    did_from_txt, did_from_well_known, Event, Fault, Request, Resolution, ResolutionError,
};

fn strings(v: &[&str]) -> Vec<String> {
    v.iter().map(|s| s.to_string()).collect()
}

fn doc(id: &str) -> IdentityDocument {
    IdentityDocument {
        id: id.to_string(),
        pds_endpoint: Some("https://pds.example".to_string()),
        verification_methods: vec![],
    }
}

#[test]
fn parse_identifier_variants() {
    assert!(matches!(Identifier::parse("did:example:alice"), Some(Identifier::Did(d)) if d == "did:example:alice"));
    assert!(matches!(Identifier::parse("alice.example"), Some(Identifier::Handle(h)) if h == "alice.example"));
    assert!(Identifier::parse("not a handle").is_none());
    assert!(Identifier::parse("").is_none());
}

#[test]
fn txt_records_pick_first_did_record() {
    let recs = strings(&["v=spf1 -all", "did=did:example:alice", "did=did:plc:other"]);
    assert_eq!(did_from_txt(&recs), Some("did:example:alice".to_string()));
    assert_eq!(did_from_txt(&strings(&["did=not valid", "did=did:plc:x"])), None);
    assert_eq!(did_from_txt(&strings(&["hello"])), None);
    assert_eq!(did_from_txt(&vec![]), None);
}

#[test]
fn well_known_body_is_trimmed() {
    assert_eq!(did_from_well_known("  did:example:alice\n"), Some("did:example:alice".to_string()));
    assert_eq!(did_from_well_known("<html>"), None);
}

#[test]
fn requests_for_a_handle() {
    let r = Resolution::start(Identifier::Handle("alice.example".to_string()));
    assert!(matches!(r.request(), Request::Txt { name } if name == "_atproto.alice.example"));
    let r = r.step(Event::TxtRecords(Err(Fault::Timeout)));
    assert!(matches!(r.request(), Request::WellKnown { url } if url == "https://alice.example/.well-known/atproto-did"));
    let r = r.step(Event::WellKnown(Ok("did:example:alice".to_string())));
    assert!(matches!(r.request(), Request::Document { did } if did == "did:example:alice"));
    let r = r.step(Event::Document(Ok(doc("did:example:alice"))));
    assert!(r.is_done());
    assert!(matches!(r.request(), Request::Done));
    assert!(matches!(r, Resolution::Resolved(d) if d.id == "did:example:alice"));
}

#[test]
fn canonical_id_resolves_to_its_document() {
    let r = Resolution::start(Identifier::Did("did:plc:abc".to_string()));
    assert!(matches!(r.request(), Request::Document { did } if did == "did:plc:abc"));
    let r = r.step(Event::Document(Ok(doc("did:plc:abc"))));
    assert!(matches!(r, Resolution::Resolved(d) if d.id == "did:plc:abc"));
}

#[test]
fn document_for_another_id_is_malformed() {
    let r = Resolution::start(Identifier::Did("did:plc:abc".to_string()));
    let r = r.step(Event::Document(Ok(doc("did:plc:zzz"))));
    assert!(matches!(r, Resolution::Failed(ResolutionError::Malformed)));
}

#[test]
fn document_faults_surface() {
    for (f, e) in [
        (Fault::NotFound, ResolutionError::NotFound),
        (Fault::Malformed, ResolutionError::Malformed),
        (Fault::Timeout, ResolutionError::Timeout),
    ] {
        let r = Resolution::start(Identifier::Did("did:plc:abc".to_string()));
        let r = r.step(Event::Document(Err(f)));
        assert!(matches!(r, Resolution::Failed(x) if x == e));
    }
}

#[test]
fn dns_and_fallback_agree() {
    let h = || Resolution::start(Identifier::Handle("alice.example".to_string()));
    let via_dns = h().step(Event::TxtRecords(Ok(strings(&["did=did:example:alice"]))));
    let via_http = h()
        .step(Event::TxtRecords(Ok(vec![])))
        .step(Event::WellKnown(Ok("did:example:alice\n".to_string())));
    assert!(matches!(via_dns, Resolution::AwaitDocument { did } if did == "did:example:alice"));
    assert!(matches!(via_http, Resolution::AwaitDocument { did } if did == "did:example:alice"));
}

#[test]
fn missing_handle_is_not_found() {
    let r = Resolution::start(Identifier::Handle("nobody.example".to_string()))
        .step(Event::TxtRecords(Err(Fault::NotFound)))
        .step(Event::WellKnown(Err(Fault::Timeout)));
    assert!(matches!(r, Resolution::Failed(ResolutionError::HandleNotFound)));
    let r = Resolution::start(Identifier::Handle("nobody.example".to_string()))
        .step(Event::TxtRecords(Ok(strings(&["unrelated"]))))
        .step(Event::WellKnown(Ok("Not Found".to_string())));
    assert!(matches!(r, Resolution::Failed(ResolutionError::HandleNotFound)));
}

#[test]
fn unexpected_event_changes_nothing() {
    let r = Resolution::start(Identifier::Handle("alice.example".to_string()))
        .step(Event::Document(Ok(doc("did:plc:abc"))));
    assert!(matches!(r, Resolution::AwaitTxt { handle } if handle == "alice.example"));
}
