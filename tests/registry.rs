use bild::registry::{
    finish_put, get, keys_file, put, AccessConfig, KeyRecord, KeyRegistry, PutReq, RegistryError,
};
use bild::session::{Credential, Session};

const ED25519_KEY: &str = "ssh-ed25519 AAAAC3NzaC1lZDI1NTE5AAAAIAhBr6++FQXB8kkgOMbdxBuyrHzuX5HkElswrN6DQoN/ demos@siril";

const NOW: u64 = 100;
const LIFETIME: u64 = 3600;

fn session(did: &str, handle: &str) -> Session {
    Session {
        did: did.to_string(),
        handle: handle.to_string(),
        endpoint: "https://pds.example".to_string(),
        credential: Credential::Bearer { access: "a".to_string(), refresh: "r".to_string() },
        issued_at: 0,
    }
}

fn req(key: &str, name: &str) -> PutReq {
    PutReq { key: key.to_string(), name: name.to_string() }
}

#[test]
fn put_without_session_is_unauthorized() {
    let mut reg = KeyRegistry::new();
    assert_eq!(put(&mut reg, None, req(ED25519_KEY, "laptop"), NOW, LIFETIME), Err(RegistryError::Unauthorized));
    assert_eq!(put(&mut reg, None, req("not-a-key", "laptop"), NOW, LIFETIME), Err(RegistryError::Unauthorized));
    assert_eq!(reg.len(), 0);
}

#[test]
fn put_malformed_key_is_refused() {
    let mut reg = KeyRegistry::new();
    let s = session("did:example:alice", "alice.example");
    assert_eq!(put(&mut reg, Some(&s), req("not-a-key", "laptop"), NOW, LIFETIME), Err(RegistryError::InvalidKeyFormat));
    assert_eq!(put(&mut reg, Some(&s), req("", "laptop"), NOW, LIFETIME), Err(RegistryError::InvalidKeyFormat));
    assert_eq!(reg.len(), 0);
}

#[test]
fn put_twice_is_duplicate() {
    let mut reg = KeyRegistry::new();
    let s = session("did:example:alice", "alice.example");
    assert_eq!(put(&mut reg, Some(&s), req(ED25519_KEY, "laptop"), NOW, LIFETIME), Ok(()));
    assert_eq!(reg.len(), 1);
    assert_eq!(put(&mut reg, Some(&s), req(ED25519_KEY, "other label"), NOW, LIFETIME), Err(RegistryError::DuplicateKey));
    assert_eq!(reg.len(), 1);
}

#[test]
fn same_key_under_another_owner_is_accepted() {
    let mut reg = KeyRegistry::new();
    let a = session("did:example:alice", "alice.example");
    let b = session("did:example:bob", "bob.example");
    assert_eq!(put(&mut reg, Some(&a), req(ED25519_KEY, "laptop"), NOW, LIFETIME), Ok(()));
    assert_eq!(put(&mut reg, Some(&b), req(ED25519_KEY, "laptop"), NOW, LIFETIME), Ok(()));
    assert_eq!(reg.len(), 2);
}

#[test]
fn get_lists_only_the_owners_keys_in_order() {
    let mut reg = KeyRegistry::new();
    let a = session("did:example:alice", "alice.example");
    let b = session("did:example:bob", "bob.example");
    let k2 = format!("{} second", &ED25519_KEY[..ED25519_KEY.len() - " demos@siril".len()]);
    assert_eq!(put(&mut reg, Some(&a), req(ED25519_KEY, "one"), NOW, LIFETIME), Ok(()));
    assert_eq!(put(&mut reg, Some(&b), req(ED25519_KEY, "bob"), NOW, LIFETIME), Ok(()));
    assert_eq!(put(&mut reg, Some(&a), req(&k2, "two"), NOW, LIFETIME), Ok(()));
    assert_eq!(get(&reg, &"did:example:alice".to_string()), vec![ED25519_KEY.to_string(), k2]);
    assert_eq!(get(&reg, &"did:example:bob".to_string()), vec![ED25519_KEY.to_string()]);
    assert!(get(&reg, &"did:example:carol".to_string()).is_empty());
}

#[test]
fn keys_file_of_empty_registry_is_empty() {
    let reg = KeyRegistry::new();
    assert_eq!(keys_file(&reg, &AccessConfig::standard()), "");
}

#[test]
fn keys_file_line_format() {
    let mut reg = KeyRegistry::new();
    let a = session("did:example:alice", "alice.example");
    assert_eq!(put(&mut reg, Some(&a), req(ED25519_KEY, "laptop"), NOW, LIFETIME), Ok(()));
    let expected = format!(
        "command=\"/home/git/repoguard -base-dir /home/git -user alice.example -log-path /home/git/log\",no-port-forwarding,no-X11-forwarding,no-agent-forwarding,no-pty {}",
        ED25519_KEY
    );
    assert_eq!(keys_file(&reg, &AccessConfig::standard()), expected);
}

#[test]
fn keys_file_has_one_line_per_record() {
    let mut reg = KeyRegistry::new();
    let a = session("did:example:alice", "alice.example");
    let b = session("did:example:bob", "bob.example");
    assert_eq!(put(&mut reg, Some(&a), req(ED25519_KEY, "1"), NOW, LIFETIME), Ok(()));
    assert_eq!(put(&mut reg, Some(&b), req(ED25519_KEY, "2"), NOW, LIFETIME), Ok(()));
    assert_eq!(put(&mut reg, Some(&a), req(&format!("{}x", ED25519_KEY), "3"), NOW, LIFETIME), Ok(()));
    let cfg = AccessConfig {
        verifier: "/v".to_string(),
        base_dir: "/b".to_string(),
        log_path: "/l".to_string(),
    };
    let text = keys_file(&reg, &cfg);
    let lines: Vec<&str> = text.split('\n').collect();
    assert_eq!(lines.len(), 3);
    assert!(lines[0].contains("-user alice.example ") && lines[0].ends_with(ED25519_KEY));
    assert!(lines[1].contains("-user bob.example ") && !lines[1].contains("alice"));
    assert!(lines[2].contains("-user alice.example ") && lines[2].ends_with(&format!("{}x", ED25519_KEY)));
    assert!(lines[0].starts_with("command=\"/v -base-dir /b -user "));
    assert!(lines[0].contains(" -log-path /l\",no-port-forwarding,"));
}

#[test]
fn restore_skips_known_triples() {
    let mut reg = KeyRegistry::new();
    let rec = || KeyRecord {
        did: "did:example:alice".to_string(),
        handle: "alice.example".to_string(),
        key: ED25519_KEY.to_string(),
        name: "laptop".to_string(),
    };
    assert!(reg.restore(rec()));
    assert!(!reg.restore(rec()));
    assert_eq!(reg.len(), 1);
    let s = session("did:example:alice", "alice.example");
    assert_eq!(put(&mut reg, Some(&s), req(ED25519_KEY, "again"), NOW, LIFETIME), Err(RegistryError::DuplicateKey));
    assert_eq!(get(&reg, &"did:example:alice".to_string()), vec![ED25519_KEY.to_string()]);
}

#[test]
fn expired_session_is_unauthorized() {
    let mut reg = KeyRegistry::new();
    let s = session("did:example:alice", "alice.example");
    assert_eq!(put(&mut reg, Some(&s), req(ED25519_KEY, "laptop"), 3600, 3600), Err(RegistryError::Unauthorized));
    assert_eq!(reg.len(), 0);
    assert_eq!(put(&mut reg, Some(&s), req(ED25519_KEY, "laptop"), 3599, 3600), Ok(()));
}

#[test]
fn session_handle_with_newline_is_unauthorized() {
    let mut reg = KeyRegistry::new();
    let s = session("did:example:alice", "alice.example\nx");
    assert_eq!(put(&mut reg, Some(&s), req(ED25519_KEY, "laptop"), NOW, LIFETIME), Err(RegistryError::Unauthorized));
    assert_eq!(reg.len(), 0);
}

#[test]
fn key_with_newline_is_refused() {
    let mut reg = KeyRegistry::new();
    let s = session("did:example:alice", "alice.example");
    let key = "ssh-ed25519 AAAAC3NzaC1lZDI1NTE5AAAAIAhBr6++FQXB8kkgOMbdxBuyrHzuX5HkElswrN6DQoN/\nssh-ed25519 other";
    assert_eq!(put(&mut reg, Some(&s), req(key, "laptop"), NOW, LIFETIME), Err(RegistryError::InvalidKeyFormat));
    assert_eq!(reg.len(), 0);
}

#[test]
fn non_ascii_before_blank_is_refused_without_panic() {
    let mut reg = KeyRegistry::new();
    let s = session("did:example:alice", "alice.example");
    assert_eq!(put(&mut reg, Some(&s), req("\u{e9}\u{e9} x", "laptop"), NOW, LIFETIME), Err(RegistryError::InvalidKeyFormat));
    assert_eq!(reg.len(), 0);
}

#[test]
fn unstored_write_is_taken_back() {
    let mut reg = KeyRegistry::new();
    let s = session("did:example:alice", "alice.example");
    assert_eq!(put(&mut reg, Some(&s), req(ED25519_KEY, "laptop"), NOW, LIFETIME), Ok(()));
    assert_eq!(finish_put(&mut reg, true), Ok(()));
    assert_eq!(reg.len(), 1);
    let k2 = format!("{}2", ED25519_KEY);
    assert_eq!(put(&mut reg, Some(&s), req(&k2, "second"), NOW, LIFETIME), Ok(()));
    assert_eq!(finish_put(&mut reg, false), Err(RegistryError::StorageUnavailable));
    assert_eq!(reg.len(), 1);
    assert_eq!(get(&reg, &"did:example:alice".to_string()), vec![ED25519_KEY.to_string()]);
}

#[test]
fn restore_skips_rows_of_several_lines() {
    let mut reg = KeyRegistry::new();
    let rec = KeyRecord {
        did: "did:example:alice".to_string(),
        handle: "alice.example".to_string(),
        key: format!("{}\nmore", ED25519_KEY),
        name: "laptop".to_string(),
    };
    assert!(!reg.restore(rec));
    assert_eq!(reg.len(), 0);
}
