//! Sessions against a data-service endpoint, and the two ways of getting
//! one: a password login, and delegated authorization, whose pending
//! handshakes are single-use and expire.
use vstd::prelude::*;
use crate::identifier::IdentityDocument;

verus! {

/// Why establishing a session failed.
#[derive(PartialEq, Eq, Structural, Debug, Clone, Copy)]
pub enum AuthError {
    InvalidCredential,
    NoServiceEndpoint,
    EndpointUnreachable,
    ReplayedState,
}

/// What a session holds to authenticate its requests.
pub enum Credential {
    /// A bearer token pair from a password login.
    Bearer { access: String, refresh: String },
    /// A proof-key-bound token pair from delegated authorization.
    ProofBound { access: String, renewal: Option<String> },
}

/// An authenticated session, kept server-side under an opaque session id.
pub struct Session {
    pub did: String,
    pub handle: String,
    pub endpoint: String,
    pub credential: Credential,
    pub issued_at: u64,
}

impl Session {
    /// Whether the session is still valid at `now`: younger than `lifetime`.
    pub open spec fn current_at(&self, now: u64, lifetime: u64) -> bool {
        (now as int) < self.issued_at as int + lifetime as int
    }

    /// Whether the session is still valid at `now`.
    pub fn is_current(&self, now: u64, lifetime: u64) -> (r: bool)
        ensures
            r == self.current_at(now, lifetime),
    {
        (now as u128) < (self.issued_at as u128) + (lifetime as u128)
    }
}

/// Why a handshake with an endpoint produced no tokens.
#[derive(PartialEq, Eq, Structural, Debug, Clone, Copy)]
pub enum HandshakeFault {
    /// The endpoint refused the credential or the code.
    Rejected,
    /// The endpoint could not be reached in time.
    Unreachable,
}

/// What a successful password login hands back.
pub struct LoginGrant {
    pub did: String,
    pub handle: String,
    pub access: String,
    pub refresh: String,
}

/// What a successful code exchange hands back.
pub struct TokenGrant {
    pub did: String,
    pub handle: String,
    pub access: String,
    pub renewal: Option<String>,
}

/// The session a password login yields: the grant's owner and bearer
/// tokens, at the endpoint, issued now.
pub open spec fn is_login_session(s: Session, endpoint: Seq<char>, g: LoginGrant, now: u64) -> bool {
    &&& s.did@ == g.did@
    &&& s.handle@ == g.handle@
    &&& s.endpoint@ == endpoint
    &&& s.issued_at == now
    &&& match s.credential {
        Credential::Bearer { access, refresh } => access@ == g.access@ && refresh@ == g.refresh@,
        _ => false,
    }
}

/// The session a code exchange yields: the grant's owner and proof-bound
/// tokens, at the endpoint, issued now.
pub open spec fn is_authorized_session(s: Session, endpoint: Seq<char>, g: TokenGrant, now: u64) -> bool {
    &&& s.did@ == g.did@
    &&& s.handle@ == g.handle@
    &&& s.endpoint@ == endpoint
    &&& s.issued_at == now
    &&& match s.credential {
        Credential::ProofBound { access, renewal } => access@ == g.access@ && renewal == g.renewal,
        _ => false,
    }
}

/// The error a failed handshake surfaces as.
pub open spec fn fault_error(f: HandshakeFault) -> AuthError {
    match f {
        HandshakeFault::Rejected => AuthError::InvalidCredential,
        HandshakeFault::Unreachable => AuthError::EndpointUnreachable,
    }
}

fn handshake_error(f: HandshakeFault) -> (r: AuthError)
    ensures
        r == fault_error(f),
{
    match f {
        HandshakeFault::Rejected => AuthError::InvalidCredential,
        HandshakeFault::Unreachable => AuthError::EndpointUnreachable,
    }
}

/// The endpoint a session with this identity is established against: the
/// document's data-service endpoint.
pub fn login_endpoint(doc: &IdentityDocument) -> (r: Result<String, AuthError>)
    ensures
        doc@.pds_endpoint matches Some(e) ==> r matches Ok(u) && u@ == e,
        doc@.pds_endpoint is None ==> r == Err::<String, AuthError>(AuthError::NoServiceEndpoint),
{
    match &doc.pds_endpoint {
        Some(e) => Ok(e.clone()),
        None => Err(AuthError::NoServiceEndpoint),
    }
}

/// Turns the outcome of a password login at `endpoint` into a session.
pub fn finish_login(endpoint: String, outcome: Result<LoginGrant, HandshakeFault>, now: u64) -> (r:
    Result<Session, AuthError>)
    ensures
        outcome matches Err(f) ==> r == Err::<Session, AuthError>(fault_error(f)),
        outcome matches Ok(g) ==> (r matches Ok(s) && is_login_session(s, endpoint@, g, now)),
{
    match outcome {
        Ok(g) => Ok(
            Session {
                did: g.did,
                handle: g.handle,
                endpoint,
                credential: Credential::Bearer { access: g.access, refresh: g.refresh },
                issued_at: now,
            },
        ),
        Err(f) => Err(handshake_error(f)),
    }
}

/// Turns the outcome of a code exchange at `endpoint` into a session.
pub fn finish_authorization(
    endpoint: String,
    outcome: Result<TokenGrant, HandshakeFault>,
    now: u64,
) -> (r: Result<Session, AuthError>)
    ensures
        outcome matches Err(f) ==> r == Err::<Session, AuthError>(fault_error(f)),
        outcome matches Ok(g) ==> (r matches Ok(s) && is_authorized_session(s, endpoint@, g, now)),
{
    match outcome {
        Ok(g) => Ok(
            Session {
                did: g.did,
                handle: g.handle,
                endpoint,
                credential: Credential::ProofBound { access: g.access, renewal: g.renewal },
                issued_at: now,
            },
        ),
        Err(f) => Err(handshake_error(f)),
    }
}

/// A delegated-authorization handshake in progress, known by its state
/// token.
pub struct PendingAuthorization {
    pub state_token: String,
    pub issued_at: u64,
    pub consumed: bool,
}

pub ghost struct PendingModel {
    pub state_token: Seq<char>,
    pub issued_at: nat,
    pub consumed: bool,
}

impl View for PendingAuthorization {
    type V = PendingModel;

    open spec fn view(&self) -> PendingModel {
        PendingModel {
            state_token: self.state_token@,
            issued_at: self.issued_at as nat,
            consumed: self.consumed,
        }
    }
}

/// Whether a handshake may still be redeemed at `now`: it is unused and
/// younger than `lifetime`.
pub open spec fn redeemable(p: PendingModel, now: nat, lifetime: nat) -> bool {
    !p.consumed && now < p.issued_at + lifetime
}

/// Whether some handshake has this state token.
pub open spec fn knows_token(entries: Seq<PendingModel>, token: Seq<char>) -> bool {
    exists|i: int| 0 <= i < entries.len() && (#[trigger] entries[i]).state_token == token
}

/// No two handshakes share a state token.
pub open spec fn unique_tokens(entries: Seq<PendingModel>) -> bool {
    forall|i: int, j: int|
        0 <= i < entries.len() && 0 <= j < entries.len() && i != j ==> (#[trigger] entries[i]).state_token
            != (#[trigger] entries[j]).state_token
}

/// The handshakes a sweep at `now` keeps, in order: those still redeemable.
pub open spec fn swept(entries: Seq<PendingModel>, now: nat, lifetime: nat) -> Seq<PendingModel>
    decreases entries.len(),
{
    if entries.len() == 0 {
        Seq::empty()
    } else {
        let rest = swept(entries.drop_last(), now, lifetime);
        if redeemable(entries.last(), now, lifetime) {
            rest.push(entries.last())
        } else {
            rest
        }
    }
}

/// The handshakes in progress, each redeemable once within `lifetime`
/// seconds of being issued.
pub struct PendingStore {
    entries: Vec<PendingAuthorization>,
    lifetime: u64,
}

impl View for PendingStore {
    type V = Seq<PendingModel>;

    closed spec fn view(&self) -> Seq<PendingModel> {
        self.entries@.map_values(|p: PendingAuthorization| p@)
    }
}

impl PendingStore {
    pub closed spec fn lifetime(&self) -> nat {
        self.lifetime as nat
    }

    pub open spec fn wf(&self) -> bool {
        unique_tokens(self@)
    }

    pub fn new(lifetime: u64) -> (r: PendingStore)
        ensures
            r.wf(),
            r@ == Seq::<PendingModel>::empty(),
            r.lifetime() == lifetime,
    {
        PendingStore { entries: Vec::new(), lifetime }
    }

    /// The position of the handshake with this token.
    fn find(&self, token: &String) -> (r: Option<usize>)
        requires
            self.wf(),
        ensures
            r matches Some(i) ==> i < self@.len() && self@[i as int].state_token == token@,
            r is None <==> !knows_token(self@, token@),
    {
        let mut i: usize = 0;
        while i < self.entries.len()
            invariant
                i <= self.entries.len(),
                forall|j: int| 0 <= j < i ==> (#[trigger] self@[j]).state_token != token@,
            decreases self.entries.len() - i,
        {
            if self.entries[i].state_token == *token {
                assert(self@[i as int].state_token == token@);
                return Some(i);
            }
            i = i + 1;
        }
        None
    }

    /// Records a new handshake issued at `now`, unless its token is already
    /// known; says whether it was recorded.
    pub fn begin(&mut self, state_token: String, now: u64) -> (r: bool)
        requires
            old(self).wf(),
        ensures
            final(self).wf(),
            final(self).lifetime() == old(self).lifetime(),
            r == !knows_token(old(self)@, state_token@),
            r ==> final(self)@ == old(self)@.push(
                PendingModel { state_token: state_token@, issued_at: now as nat, consumed: false },
            ),
            !r ==> final(self)@ == old(self)@,
    {
        if self.find(&state_token).is_some() {
            return false;
        }
        let p = PendingAuthorization { state_token, issued_at: now, consumed: false };
        self.entries.push(p);
        assert(self@ =~= old(self)@.push(p@));
        true
    }

    /// Redeems the handshake with this state token at `now`: it must be
    /// known, unused and unexpired, and is then marked used. Anything else
    /// is a replay, and changes nothing.
    pub fn consume(&mut self, state: &String, now: u64) -> (r: Result<(), AuthError>)
        requires
            old(self).wf(),
        ensures
            final(self).wf(),
            final(self).lifetime() == old(self).lifetime(),
            r is Ok <==> exists|i: int|
                0 <= i < old(self)@.len() && (#[trigger] old(self)@[i]).state_token == state@
                    && redeemable(old(self)@[i], now as nat, old(self).lifetime()),
            r is Ok ==> exists|i: int|
                0 <= i < old(self)@.len() && (#[trigger] old(self)@[i]).state_token == state@
                    && final(self)@ == old(self)@.update(
                    i,
                    PendingModel { consumed: true, ..old(self)@[i] },
                ),
            r is Err ==> r == Err::<(), AuthError>(AuthError::ReplayedState) && final(self)@ == old(
                self,
            )@,
    {
        match self.find(state) {
            None => Err(AuthError::ReplayedState),
            Some(i) => {
                let issued = self.entries[i].issued_at;
                let live = (now as u128) < (issued as u128) + (self.lifetime as u128);
                if self.entries[i].consumed || !live {
                    return Err(AuthError::ReplayedState);
                }
                let ghost before = self@;
                self.entries[i].consumed = true;
                assert(self@ =~= before.update(i as int, PendingModel { consumed: true, ..before[i as int] }));
                assert(self@[i as int].state_token == before[i as int].state_token);
                Ok(())
            },
        }
    }

    /// Drops every handshake that can no longer be redeemed at `now`
    /// (used or expired), keeping the others in order.
    pub fn sweep(&mut self, now: u64)
        requires
            old(self).wf(),
        ensures
            final(self).wf(),
            final(self).lifetime() == old(self).lifetime(),
            final(self)@ == swept(old(self)@, now as nat, old(self).lifetime()),
    {
        let ghost all = self@;
        let mut kept: Vec<PendingAuthorization> = Vec::new();
        let mut i: usize = 0;
        assert(all.subrange(0, 0) =~= Seq::<PendingModel>::empty());
        while i < self.entries.len()
            invariant
                i <= self.entries.len(),
                all == self@,
                unique_tokens(all),
                kept@.map_values(|p: PendingAuthorization| p@) == swept(
                    all.subrange(0, i as int),
                    now as nat,
                    self.lifetime as nat,
                ),
                unique_tokens(kept@.map_values(|p: PendingAuthorization| p@)),
                forall|k: int|
                    0 <= k < kept@.len() ==> exists|j: int|
                        0 <= j < i && #[trigger] kept@[k]@ == #[trigger] all[j],
            decreases self.entries.len() - i,
        {
            let e = &self.entries[i];
            let ghost kv = kept@.map_values(|p: PendingAuthorization| p@);
            assert(all.subrange(0, i as int + 1).drop_last() =~= all.subrange(0, i as int));
            let live = (now as u128) < (e.issued_at as u128) + (self.lifetime as u128);
            if !e.consumed && live {
                let p = PendingAuthorization {
                    state_token: e.state_token.clone(),
                    issued_at: e.issued_at,
                    consumed: e.consumed,
                };
                let ghost before = kept@;
                kept.push(p);
                assert(kept@.map_values(|p: PendingAuthorization| p@) =~= kv.push(all[i as int]));
                assert forall|k: int| 0 <= k < kv.len() implies (#[trigger] kv[k]).state_token
                    != all[i as int].state_token by {
                    assert(kv[k] == before[k]@);
                    let j = choose|j: int| 0 <= j < i && before[k]@ == all[j];
                    assert(all[j].state_token != all[i as int].state_token);
                }
                assert forall|k: int| 0 <= k < kept@.len() implies exists|j: int|
                    0 <= j < i + 1 && #[trigger] kept@[k]@ == #[trigger] all[j] by {
                    if k == kept@.len() - 1 {
                        assert(kept@[k]@ == all[i as int]);
                    } else {
                        assert(kept@[k] == before[k]);
                    }
                }
            }
            i = i + 1;
        }
        assert(all.subrange(0, all.len() as int) =~= all);
        self.entries = kept;
    }
}

} // verus!
