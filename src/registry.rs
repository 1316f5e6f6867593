//! The key registry and the SSH access list compiled from it.
use vstd::prelude::*;
use crate::session::Session;

verus! {

/// Texts that `openssh_keys` reads as a public key.
pub uninterp spec fn is_openssh_public_key(s: Seq<char>) -> bool;

/// A space or a tab.
pub open spec fn is_blank(c: char) -> bool {
    c == ' ' || c == '\t'
}

/// Every character before the last blank is ASCII. On such texts the
/// parser's fallback, which counts characters up to a blank and then slices
/// at that count as a byte offset, slices on a character boundary.
pub open spec fn ascii_before_last_blank(s: Seq<char>) -> bool {
    forall|i: int, j: int|
        0 <= i < j < s.len() && is_blank(#[trigger] s[j]) ==> (#[trigger] s[i] as u32) < 128
}

/// A key text this registry accepts: the parser can read it safely, reads
/// it as a public key, and it is one line.
pub open spec fn acceptable_key(s: Seq<char>) -> bool {
    ascii_before_last_blank(s) && is_openssh_public_key(s) && single_line(s)
}

/// Relies on `openssh_keys::PublicKey::parse`: whether a text reads as a
/// public key depends on the text alone. The parser slices by a character
/// count on its fallback path, so texts with a non-ASCII character before a
/// blank are left out.
#[verifier::external_body]
fn parses_as_public_key(key: &str) -> (r: bool)
    requires
        ascii_before_last_blank(key@),
    ensures
        r == is_openssh_public_key(key@),
{
    openssh_keys::PublicKey::parse(key).is_ok()
}

/// Whether every character before the last blank is ASCII.
fn check_ascii_before_last_blank(s: &str) -> (r: bool)
    ensures
        r == ascii_before_last_blank(s@),
{
    let n = s.unicode_len();
    let mut seen_non_ascii = false;
    let mut k: usize = 0;
    while k < n
        invariant
            k <= n,
            n == s@.len(),
            seen_non_ascii <==> exists|i: int| 0 <= i < k && (#[trigger] s@[i] as u32) >= 128,
            forall|i: int, j: int|
                0 <= i < j < k && is_blank(#[trigger] s@[j]) ==> (#[trigger] s@[i] as u32) < 128,
        decreases n - k,
    {
        let c = s.get_char(k);
        if (c == ' ' || c == '\t') && seen_non_ascii {
            let ghost i = choose|i: int| 0 <= i < k && (#[trigger] s@[i] as u32) >= 128;
            assert(is_blank(s@[k as int]) && (s@[i] as u32) >= 128);
            return false;
        }
        if (c as u32) >= 128 {
            seen_non_ascii = true;
        }
        k = k + 1;
    }
    true
}

/// Whether a text holds a newline.
fn has_newline(s: &str) -> (r: bool)
    ensures
        r == !single_line(s@),
{
    let n = s.unicode_len();
    let mut k: usize = 0;
    while k < n
        invariant
            k <= n,
            n == s@.len(),
            forall|i: int| 0 <= i < k ==> s@[i] != '\n',
        decreases n - k,
    {
        if s.get_char(k) == '\n' {
            return true;
        }
        k = k + 1;
    }
    false
}

/// Whether the registry accepts a key text.
fn key_is_acceptable(key: &str) -> (r: bool)
    ensures
        r == acceptable_key(key@),
{
    if has_newline(key) || !check_ascii_before_last_blank(key) {
        return false;
    }
    parses_as_public_key(key)
}

/// Why a registry write was refused.
#[derive(PartialEq, Eq, Structural, Debug, Clone, Copy)]
pub enum RegistryError {
    InvalidKeyFormat,
    DuplicateKey,
    Unauthorized,
    StorageUnavailable,
}

/// A request to register a key under a label.
pub struct PutReq {
    pub key: String,
    pub name: String,
}

/// One registered key: its owner's id, the owner's handle when it was
/// registered, the key text and a label.
pub struct KeyRecord {
    pub did: String,
    pub handle: String,
    pub key: String,
    pub name: String,
}

pub ghost struct RecordModel {
    pub did: Seq<char>,
    pub handle: Seq<char>,
    pub key: Seq<char>,
    pub name: Seq<char>,
}

impl View for KeyRecord {
    type V = RecordModel;

    open spec fn view(&self) -> RecordModel {
        RecordModel { did: self.did@, handle: self.handle@, key: self.key@, name: self.name@ }
    }
}

/// Whether a row holds the given (owner, handle, key) triple.
pub open spec fn has_triple(r: RecordModel, did: Seq<char>, handle: Seq<char>, key: Seq<char>) -> bool {
    r.did == did && r.handle == handle && r.key == key
}

/// Whether some row holds the given triple.
pub open spec fn holds_triple(
    rows: Seq<RecordModel>,
    did: Seq<char>,
    handle: Seq<char>,
    key: Seq<char>,
) -> bool {
    exists|i: int| 0 <= i < rows.len() && has_triple(#[trigger] rows[i], did, handle, key)
}

/// No two rows share an (owner, handle, key) triple.
pub open spec fn unique_triples(rows: Seq<RecordModel>) -> bool {
    forall|i: int, j: int|
        0 <= i < j < rows.len() ==> !has_triple(
            #[trigger] rows[i],
            #[trigger] rows[j].did,
            rows[j].handle,
            rows[j].key,
        )
}

/// The key texts of the rows owned by `did`, in registry order.
pub open spec fn keys_of(rows: Seq<RecordModel>, did: Seq<char>) -> Seq<Seq<char>>
    decreases rows.len(),
{
    if rows.len() == 0 {
        Seq::empty()
    } else {
        let rest = keys_of(rows.drop_last(), did);
        if rows.last().did == did {
            rest.push(rows.last().key)
        } else {
            rest
        }
    }
}

/// The owner (id and handle) that a session writes for at `now`: there is
/// one when the session is present, unexpired under `lifetime`, and its
/// handle is one line.
pub open spec fn owner_of(session: Option<&Session>, now: u64, lifetime: u64) -> Option<
    (Seq<char>, Seq<char>),
> {
    match session {
        Some(s) => if s.current_at(now, lifetime) && single_line(s.handle@) {
            Some((s.did@, s.handle@))
        } else {
            None
        },
        None => None,
    }
}

/// Every row's handle and key is one line.
pub open spec fn rows_single_line(rows: Seq<RecordModel>) -> bool {
    forall|i: int| 0 <= i < rows.len() ==> single_line(#[trigger] rows[i].handle) && single_line(rows[i].key)
}

/// What a registry write returns and the rows it leaves: without an owner
/// it is unauthorized, a malformed key (or one of several lines) is
/// refused, a known triple is a duplicate; otherwise the row is appended. A
/// refused write changes nothing.
pub open spec fn put_outcome(
    rows: Seq<RecordModel>,
    owner: Option<(Seq<char>, Seq<char>)>,
    key: Seq<char>,
    name: Seq<char>,
    key_valid: bool,
) -> (Result<(), RegistryError>, Seq<RecordModel>) {
    match owner {
        None => (Err(RegistryError::Unauthorized), rows),
        Some((did, handle)) => if !key_valid || !single_line(key) {
            (Err(RegistryError::InvalidKeyFormat), rows)
        } else if holds_triple(rows, did, handle, key) {
            (Err(RegistryError::DuplicateKey), rows)
        } else {
            (Ok(()), rows.push(RecordModel { did, handle, key, name }))
        },
    }
}

/// Where the access list sends each login, and where it logs.
pub struct AccessConfig {
    pub verifier: String,
    pub base_dir: String,
    pub log_path: String,
}

pub ghost struct AccessModel {
    pub verifier: Seq<char>,
    pub base_dir: Seq<char>,
    pub log_path: Seq<char>,
}

impl View for AccessConfig {
    type V = AccessModel;

    open spec fn view(&self) -> AccessModel {
        AccessModel { verifier: self.verifier@, base_dir: self.base_dir@, log_path: self.log_path@ }
    }
}

impl AccessConfig {
    /// The layout of the git host: the verifier, repositories and log under
    /// `/home/git`.
    pub fn standard() -> (r: AccessConfig)
        ensures
            r@ == (AccessModel {
                verifier: "/home/git/repoguard"@,
                base_dir: "/home/git"@,
                log_path: "/home/git/log"@,
            }),
    {
        AccessConfig {
            verifier: String::from_str("/home/git/repoguard"),
            base_dir: String::from_str("/home/git"),
            log_path: String::from_str("/home/git/log"),
        }
    }
}

/// The access-list line for one key: a forced command running the verifier
/// for the key's handle, with forwarding and pty allocation turned off.
pub open spec fn access_line(cfg: AccessModel, handle: Seq<char>, key: Seq<char>) -> Seq<char> {
    "command=\""@ + cfg.verifier + " -base-dir "@ + cfg.base_dir + " -user "@ + handle
        + " -log-path "@ + cfg.log_path
        + "\",no-port-forwarding,no-X11-forwarding,no-agent-forwarding,no-pty "@ + key
}

/// One access-list line per row, in registry order.
pub open spec fn access_lines(cfg: AccessModel, rows: Seq<RecordModel>) -> Seq<Seq<char>> {
    rows.map_values(|r: RecordModel| access_line(cfg, r.handle, r.key))
}

/// Lines joined by single newlines, with none after the last.
pub open spec fn join_lines(lines: Seq<Seq<char>>) -> Seq<char>
    decreases lines.len(),
{
    if lines.len() == 0 {
        Seq::empty()
    } else if lines.len() == 1 {
        lines[0]
    } else {
        join_lines(lines.drop_last()) + "\n"@ + lines.last()
    }
}

/// Append-only store of key records, unique on (owner, handle, key).
pub struct KeyRegistry {
    rows: Vec<KeyRecord>,
}

impl View for KeyRegistry {
    type V = Seq<RecordModel>;

    closed spec fn view(&self) -> Seq<RecordModel> {
        self.rows@.map_values(|r: KeyRecord| r@)
    }
}

impl KeyRegistry {
    pub open spec fn wf(&self) -> bool {
        unique_triples(self@) && rows_single_line(self@)
    }

    pub fn new() -> (r: KeyRegistry)
        ensures
            r.wf(),
            r@ == Seq::<RecordModel>::empty(),
    {
        KeyRegistry { rows: Vec::new() }
    }

    pub fn len(&self) -> (r: usize)
        ensures
            r == self@.len(),
    {
        self.rows.len()
    }

    /// Whether a row holds the triple.
    pub fn contains(&self, did: &String, handle: &String, key: &String) -> (r: bool)
        ensures
            r == holds_triple(self@, did@, handle@, key@),
    {
        let mut i: usize = 0;
        while i < self.rows.len()
            invariant
                i <= self.rows.len(),
                forall|j: int| 0 <= j < i ==> !has_triple(#[trigger] self@[j], did@, handle@, key@),
            decreases self.rows.len() - i,
        {
            let r = &self.rows[i];
            if r.did == *did && r.handle == *handle && r.key == *key {
                assert(has_triple(self@[i as int], did@, handle@, key@));
                return true;
            }
            i = i + 1;
        }
        false
    }

    /// Brings back a stored row, unless its triple is already present or
    /// its handle or key is not one line; says whether it was added.
    pub fn restore(&mut self, rec: KeyRecord) -> (r: bool)
        requires
            old(self).wf(),
        ensures
            final(self).wf(),
            r == (single_line(rec.handle@) && single_line(rec.key@) && !holds_triple(
                old(self)@,
                rec.did@,
                rec.handle@,
                rec.key@,
            )),
            r ==> final(self)@ == old(self)@.push(rec@),
            !r ==> final(self)@ == old(self)@,
    {
        if has_newline(rec.handle.as_str()) || has_newline(rec.key.as_str()) {
            return false;
        }
        if self.contains(&rec.did, &rec.handle, &rec.key) {
            return false;
        }
        let ghost v = rec@;
        self.rows.push(rec);
        assert(self@ =~= old(self)@.push(v));
        true
    }

    /// Registers a key for the session's owner, given whether the key text
    /// reads as a public key: refused without a current session, for a
    /// malformed key, or when the triple is already registered; otherwise
    /// appended.
    pub fn insert_checked(
        &mut self,
        session: Option<&Session>,
        req: PutReq,
        key_valid: bool,
        now: u64,
        lifetime: u64,
    ) -> (r: Result<(), RegistryError>)
        requires
            old(self).wf(),
        ensures
            final(self).wf(),
            (r, final(self)@) == put_outcome(
                old(self)@,
                owner_of(session, now, lifetime),
                req.key@,
                req.name@,
                key_valid,
            ),
    {
        match session {
            None => Err(RegistryError::Unauthorized),
            Some(s) => {
                if !s.is_current(now, lifetime) || has_newline(s.handle.as_str()) {
                    return Err(RegistryError::Unauthorized);
                }
                if !key_valid || has_newline(req.key.as_str()) {
                    return Err(RegistryError::InvalidKeyFormat);
                }
                if self.contains(&s.did, &s.handle, &req.key) {
                    return Err(RegistryError::DuplicateKey);
                }
                let rec = KeyRecord {
                    did: s.did.clone(),
                    handle: s.handle.clone(),
                    key: req.key,
                    name: req.name,
                };
                self.rows.push(rec);
                assert(self@ =~= old(self)@.push(rec@));
                Ok(())
            },
        }
    }
}

/// Settles a write that `put` appended, by whether storage recorded it:
/// the row stays when it was stored, and is taken back, with
/// `StorageUnavailable`, when it was not.
pub fn finish_put(registry: &mut KeyRegistry, stored: bool) -> (r: Result<(), RegistryError>)
    requires
        old(registry).wf(),
        old(registry)@.len() > 0,
    ensures
        final(registry).wf(),
        stored ==> (r is Ok && final(registry)@ == old(registry)@),
        !stored ==> (r == Err::<(), RegistryError>(RegistryError::StorageUnavailable)
            && final(registry)@ == old(registry)@.drop_last()),
{
    if stored {
        return Ok(());
    }
    registry.rows.pop();
    assert(registry@ =~= old(registry)@.drop_last());
    Err(RegistryError::StorageUnavailable)
}

/// Registers `req.key` for the owner of a session current at `now` when the
/// key text is an acceptable OpenSSH public key.
pub fn put(
    registry: &mut KeyRegistry,
    session: Option<&Session>,
    req: PutReq,
    now: u64,
    lifetime: u64,
) -> (r: Result<(), RegistryError>)
    requires
        old(registry).wf(),
    ensures
        final(registry).wf(),
        (r, final(registry)@) == put_outcome(
            old(registry)@,
            owner_of(session, now, lifetime),
            req.key@,
            req.name@,
            acceptable_key(req.key@),
        ),
{
    let key_valid = key_is_acceptable(req.key.as_str());
    registry.insert_checked(session, req, key_valid, now, lifetime)
}

/// The keys registered by `did`, in registry order.
pub fn get(registry: &KeyRegistry, did: &String) -> (r: Vec<String>)
    ensures
        r@.map_values(|k: String| k@) == keys_of(registry@, did@),
{
    let mut out: Vec<String> = Vec::new();
    let mut i: usize = 0;
    while i < registry.rows.len()
        invariant
            i <= registry.rows.len(),
            out@.map_values(|k: String| k@) == keys_of(registry@.subrange(0, i as int), did@),
        decreases registry.rows.len() - i,
    {
        let r = &registry.rows[i];
        assert(registry@.subrange(0, i as int + 1).drop_last() =~= registry@.subrange(0, i as int));
        if r.did == *did {
            out.push(r.key.clone());
            assert(out@.map_values(|k: String| k@) =~= keys_of(registry@.subrange(0, i as int), did@).push(r.key@));
        }
        i = i + 1;
    }
    assert(registry@.subrange(0, registry@.len() as int) =~= registry@);
    out
}

/// The authorized-keys text for the whole registry: one access line per row,
/// in registry order, separated by newlines.
pub fn keys_file(registry: &KeyRegistry, cfg: &AccessConfig) -> (r: String)
    requires
        registry.wf(),
    ensures
        r@ == join_lines(access_lines(cfg@, registry@)),
        access_lines(cfg@, registry@).len() == registry@.len(),
        forall|i: int|
            0 <= i < registry@.len() ==> #[trigger] access_lines(cfg@, registry@)[i] == access_line(
                cfg@,
                registry@[i].handle,
                registry@[i].key,
            ),
        config_single_line(cfg@) ==> (registry@.len() == 0 ==> r@.len() == 0) && (registry@.len()
            > 0 ==> newlines(r@) + 1 == registry@.len()) && forall|i: int|
            0 <= i < registry@.len() ==> single_line(#[trigger] access_lines(cfg@, registry@)[i]),
{
    let mut out = String::new();
    let mut i: usize = 0;
    while i < registry.rows.len()
        invariant
            i <= registry.rows.len(),
            out@ == join_lines(access_lines(cfg@, registry@.subrange(0, i as int))),
        decreases registry.rows.len() - i,
    {
        let r = &registry.rows[i];
        assert(access_lines(cfg@, registry@.subrange(0, i as int + 1)).drop_last() =~= access_lines(cfg@, registry@.subrange(0, i as int)));
        if i > 0 {
            out.append("\n");
        }
        out.append("command=\"");
        out.append(cfg.verifier.as_str());
        out.append(" -base-dir ");
        out.append(cfg.base_dir.as_str());
        out.append(" -user ");
        out.append(r.handle.as_str());
        out.append(" -log-path ");
        out.append(cfg.log_path.as_str());
        out.append("\",no-port-forwarding,no-X11-forwarding,no-agent-forwarding,no-pty ");
        out.append(r.key.as_str());
        i = i + 1;
    }
    assert(registry@.subrange(0, registry@.len() as int) =~= registry@);
    proof {
        if config_single_line(cfg@) {
            lemma_access_list_one_line_per_row(cfg@, registry@);
        }
    }
    out
}

/// A write whose key text is not an acceptable public key fails with
/// `InvalidKeyFormat` and adds no row, whoever the (present) owner is.
pub proof fn lemma_malformed_key_inserts_nothing(
    rows: Seq<RecordModel>,
    did: Seq<char>,
    handle: Seq<char>,
    key: Seq<char>,
    name: Seq<char>,
)
    requires
        !acceptable_key(key),
    ensures
        put_outcome(rows, Some((did, handle)), key, name, acceptable_key(key)) == (
        Err::<(), RegistryError>(RegistryError::InvalidKeyFormat),
        rows,
        ),
{
}

/// Writing the same fresh (owner, handle, key) triple twice succeeds the
/// first time and fails with `DuplicateKey` the second: the registry grows
/// by exactly one row, and stays unique.
pub proof fn lemma_put_twice(
    rows: Seq<RecordModel>,
    did: Seq<char>,
    handle: Seq<char>,
    key: Seq<char>,
    name1: Seq<char>,
    name2: Seq<char>,
)
    requires
        unique_triples(rows),
        !holds_triple(rows, did, handle, key),
        acceptable_key(key),
    ensures
        ({
            let (r1, rows1) = put_outcome(rows, Some((did, handle)), key, name1, acceptable_key(key));
            let (r2, rows2) = put_outcome(rows1, Some((did, handle)), key, name2, acceptable_key(key));
            &&& r1 is Ok
            &&& r2 == Err::<(), RegistryError>(RegistryError::DuplicateKey)
            &&& rows2 == rows1
            &&& rows2.len() == rows.len() + 1
            &&& unique_triples(rows2)
        }),
{
    let rows1 = rows.push(RecordModel { did, handle, key, name: name1 });
    assert(has_triple(rows1[rows.len() as int], did, handle, key));
    assert(holds_triple(rows1, did, handle, key));
}

/// A write without a current session (absent, expired, or with a handle of
/// several lines) fails with `Unauthorized` and changes nothing, whatever
/// the key.
pub proof fn lemma_unauthenticated_put(
    rows: Seq<RecordModel>,
    key: Seq<char>,
    name: Seq<char>,
    key_valid: bool,
)
    ensures
        put_outcome(rows, None, key, name, key_valid) == (
        Err::<(), RegistryError>(RegistryError::Unauthorized),
        rows,
        ),
{
}

/// A write that storage failed to record is taken back: after `put`
/// appended a row and `finish_put` learned that storing it failed, the rows
/// are those before the write.
pub proof fn lemma_unstored_put_changes_nothing(
    rows: Seq<RecordModel>,
    did: Seq<char>,
    handle: Seq<char>,
    key: Seq<char>,
    name: Seq<char>,
    key_valid: bool,
)
    requires
        put_outcome(rows, Some((did, handle)), key, name, key_valid).0 is Ok,
    ensures
        put_outcome(rows, Some((did, handle)), key, name, key_valid).1.drop_last() == rows,
{
    assert(put_outcome(rows, Some((did, handle)), key, name, key_valid).1.drop_last() =~= rows);
}

/// Whether a text holds no newline.
pub open spec fn single_line(s: Seq<char>) -> bool {
    forall|i: int| 0 <= i < s.len() ==> s[i] != '\n'
}

/// The number of newlines in a text.
pub open spec fn newlines(s: Seq<char>) -> nat
    decreases s.len(),
{
    if s.len() == 0 {
        0
    } else {
        newlines(s.drop_last()) + if s.last() == '\n' {
            1nat
        } else {
            0nat
        }
    }
}

proof fn lemma_newlines_concat(a: Seq<char>, b: Seq<char>)
    ensures
        newlines(a + b) == newlines(a) + newlines(b),
    decreases b.len(),
{
    if b.len() > 0 {
        assert((a + b).drop_last() =~= a + b.drop_last());
        lemma_newlines_concat(a, b.drop_last());
    } else {
        assert(a + b =~= a);
    }
}

proof fn lemma_single_line_newlines(s: Seq<char>)
    requires
        single_line(s),
    ensures
        newlines(s) == 0,
    decreases s.len(),
{
    if s.len() > 0 {
        lemma_single_line_newlines(s.drop_last());
    }
}

proof fn lemma_join_newlines(lines: Seq<Seq<char>>)
    requires
        lines.len() > 0,
        forall|i: int| 0 <= i < lines.len() ==> single_line(#[trigger] lines[i]),
    ensures
        newlines(join_lines(lines)) + 1 == lines.len(),
    decreases lines.len(),
{
    lemma_single_line_newlines(lines.last());
    if lines.len() > 1 {
        let init = lines.drop_last();
        assert forall|i: int| 0 <= i < init.len() implies single_line(#[trigger] init[i]) by {
            assert(init[i] == lines[i]);
        }
        lemma_join_newlines(init);
        reveal_strlit("\n");
        lemma_newlines_concat(join_lines(init), "\n"@);
        lemma_newlines_concat(join_lines(init) + "\n"@, lines.last());
        assert(newlines("\n"@) == 1) by {
            reveal_strlit("\n");
            assert("\n"@.len() == 1);
            assert("\n"@.last() == '\n');
            assert("\n"@.drop_last() =~= Seq::<char>::empty());
            assert(newlines(Seq::<char>::empty()) == 0);
        }
    }
}

/// No configured path holds a newline.
pub open spec fn config_single_line(cfg: AccessModel) -> bool {
    single_line(cfg.verifier) && single_line(cfg.base_dir) && single_line(cfg.log_path)
}

/// The access list over the N rows of a registry is exactly N lines: it
/// holds N - 1 newlines (none when empty), and its i-th line is the access
/// line of row i, naming that row's handle and key and no other row's.
/// Registry rows are one line each by the registry's invariant; the
/// configured paths must be one line too.
pub proof fn lemma_access_list_one_line_per_row(cfg: AccessModel, rows: Seq<RecordModel>)
    requires
        config_single_line(cfg),
        rows_single_line(rows),
    ensures
        access_lines(cfg, rows).len() == rows.len(),
        forall|i: int|
            0 <= i < rows.len() ==> #[trigger] access_lines(cfg, rows)[i] == access_line(
                cfg,
                rows[i].handle,
                rows[i].key,
            ) && single_line(access_lines(cfg, rows)[i]),
        rows.len() == 0 ==> join_lines(access_lines(cfg, rows)) == Seq::<char>::empty(),
        rows.len() > 0 ==> newlines(join_lines(access_lines(cfg, rows))) + 1 == rows.len(),
{
    let lines = access_lines(cfg, rows);
    assert forall|i: int| 0 <= i < rows.len() implies #[trigger] lines[i] == access_line(
        cfg,
        rows[i].handle,
        rows[i].key,
    ) && single_line(lines[i]) by {
        lemma_access_line_single(cfg, rows[i].handle, rows[i].key);
    }
    if rows.len() > 0 {
        lemma_join_newlines(lines);
    }
}

proof fn lemma_access_line_single(cfg: AccessModel, handle: Seq<char>, key: Seq<char>)
    requires
        single_line(cfg.verifier),
        single_line(cfg.base_dir),
        single_line(cfg.log_path),
        single_line(handle),
        single_line(key),
    ensures
        single_line(access_line(cfg, handle, key)),
{
    reveal_strlit("command=\"");
    reveal_strlit(" -base-dir ");
    reveal_strlit(" -user ");
    reveal_strlit(" -log-path ");
    reveal_strlit("\",no-port-forwarding,no-X11-forwarding,no-agent-forwarding,no-pty ");
    assert(single_line("command=\""@));
    assert(single_line(" -base-dir "@));
    assert(single_line(" -user "@));
    assert(single_line(" -log-path "@));
    assert(single_line("\",no-port-forwarding,no-X11-forwarding,no-agent-forwarding,no-pty "@));
}

} // verus!
