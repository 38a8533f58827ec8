//! Leave for another program to show the dictation in place of the engine.
//!
//! One program at a time holds a lease, for one dictation, for a limited time. Times are
//! in milliseconds.

use crate::text::{
    after_prefix, chars_of, hex16, hex_bytes, hex_digits, hex_text, join3, lemma_hex_parses,
    parse_number, parsed_number, pow16, same_text, same_text_opt, starts_with, str_opt, text_opt,
};
use vstd::prelude::*;

verus! {

/// The shortest time of a lease.
pub const MIN_TTL_MS: u64 = 500;

/// The longest time of a lease.
pub const MAX_TTL_MS: u64 = 60_000;

/// How many random bytes name the registry.
pub const NAMESPACE_BYTES: usize = 16;

/// How many random bytes name a lease.
pub const LEASE_BYTES: usize = 32;

/// `getrandom::fill` on a buffer of `n` bytes: it fills the whole buffer with random
/// bytes, or fails. It does not fail on an empty buffer, for which it asks the system for
/// nothing. Of the bytes nothing is claimed but their number.
#[verifier::external_body]
fn random_bytes(n: usize) -> (r: Option<Vec<u8>>)
    requires
        n <= LEASE_BYTES,
    ensures
        r is Some ==> r->0@.len() == n,
        n == 0 ==> r is Some,
{
    let mut bytes = vec![0u8; n];
    getrandom::fill(&mut bytes).ok()?;
    Some(bytes)
}

/// Random bytes as hexadecimal digits, where the system gives any. No bytes can always be
/// had.
fn random_hex(n: usize) -> (r: Option<String>)
    requires
        n <= LEASE_BYTES,
    ensures
        r is Some ==> is_random_hex(r->0@, n as nat),
        n == 0 ==> r is Some && r->0@.len() == 0,
{
    let bytes = random_bytes(n);
    let text = hex_name(&bytes);
    assert(text is Some ==> is_random_hex(text->0@, n as nat)) by {
        if bytes is Some {
            assert(bytes->0@.len() == n && text->0@ == hex_bytes(bytes->0@));
        }
    }
    text
}

/// The name that bytes give as hexadecimal digits; none where there are no bytes to be
/// had.
pub fn hex_name(bytes: &Option<Vec<u8>>) -> (r: Option<String>)
    ensures
        text_opt(r) == (match *bytes {
            Some(b) => Some(hex_bytes(b@)),
            None => None,
        }),
{
    match bytes {
        Some(b) => Some(hex_text(b)),
        None => None,
    }
}

/// Whether a text is what `n` bytes look like.
pub open spec fn is_random_hex(s: Seq<char>, n: nat) -> bool {
    exists|b: Seq<u8>| b.len() == n && s == #[trigger] hex_bytes(b)
}

// ── Sessions ─────────────────────────────────────────────────────────────────

/// The id of a dictation.
pub open spec fn session_text(namespace: Seq<char>, generation: u64) -> Seq<char> {
    namespace + "-"@ + hex_digits(generation as int, 16)
}

/// The number of the dictation that an id names, where it is one of this registry's.
pub open spec fn generation_of(namespace: Seq<char>, session: Seq<char>) -> Option<int> {
    if starts_with(session, namespace) {
        let rest = session.skip(namespace.len() as int);
        if starts_with(rest, "-"@) {
            let digits = rest.skip("-"@.len() as int);
            if digits.len() == 16 {
                parsed_number(digits, 16, u64::MAX as int)
            } else {
                None
            }
        } else {
            None
        }
    } else {
        None
    }
}

/// The id of a dictation names its number: ids of different dictations differ.
pub proof fn law_session_id_names_its_generation(namespace: Seq<char>, generation: u64)
    ensures
        generation_of(namespace, session_text(namespace, generation)) == Some(generation as int),
{
    reveal_strlit("-");
    let s = session_text(namespace, generation);
    let d = hex_digits(generation as int, 16);
    reveal_with_fuel(pow16, 17);
    lemma_hex_parses(generation as int, 16, u64::MAX as int);
    assert(s.take(namespace.len() as int) =~= namespace);
    let rest = s.skip(namespace.len() as int);
    assert(rest =~= "-"@ + d);
    assert(rest.take(1) =~= "-"@);
    assert(rest.skip(1) =~= d);
}

/// Whether a dictation came after another. The count may wrap, so that the nearer way
/// round decides.
pub open spec fn newer(candidate: u64, current: u64) -> bool {
    0 < candidate.wrapping_sub(current) < 0x8000_0000_0000_0000
}

/// Whether a dictation came after another; see [`newer`].
pub fn generation_is_newer(candidate: u64, current: u64) -> (r: bool)
    ensures
        r == newer(candidate, current),
{
    let distance: u64 = candidate.wrapping_sub(current);
    distance != 0 && distance < 0x8000_0000_0000_0000
}

/// No dictation came after itself, and of two neighbours one came after the other, also
/// where the count wraps.
pub proof fn law_order_survives_the_wrap(n: u64)
    ensures
        !newer(n, n),
        newer(n.wrapping_add(1), n),
        !newer(n, n.wrapping_add(1)),
{
}

/// Of two dictations at most one came after the other.
pub proof fn law_order_is_one_way(a: u64, b: u64)
    ensures
        !(newer(a, b) && newer(b, a)),
{
}

// ── Leases ───────────────────────────────────────────────────────────────────

struct Lease {
    id: String,
    session_id: String,
    generation: u64,
    ready: bool,
    expires_at: u64,
}

/// A lease.
#[verifier::ext_equal]
pub struct LeaseView {
    pub id: Seq<char>,
    /// The dictation that it is for.
    pub session_id: Seq<char>,
    /// The number of that dictation.
    pub generation: u64,
    /// The program shows the dictation.
    pub ready: bool,
    /// When it ends.
    pub expires_at: u64,
}

spec fn lease_view(l: Lease) -> LeaseView {
    LeaseView {
        id: l.id@,
        session_id: l.session_id@,
        generation: l.generation,
        ready: l.ready,
        expires_at: l.expires_at,
    }
}

/// A lease that was given.
#[derive(Debug, PartialEq, Eq)]
pub struct AcquiredLease {
    pub id: String,
    pub ttl_ms: u64,
}

/// What came of a request, and whether what is shown has changed with it.
#[derive(Debug, PartialEq, Eq)]
pub struct PresenterMutation<T> {
    pub result: Result<T, String>,
    pub changed: bool,
}

/// Who shows the dictation.
pub struct DictationPresenterRegistry {
    namespace: String,
    lease: Option<Lease>,
}

/// A [`DictationPresenterRegistry`] as a mathematical value.
#[verifier::ext_equal]
pub struct PresenterView {
    /// What the ids of this registry's dictations begin with.
    pub namespace: Seq<char>,
    /// The lease that is out.
    pub lease: Option<LeaseView>,
}

impl View for DictationPresenterRegistry {
    type V = PresenterView;

    closed spec fn view(&self) -> PresenterView {
        PresenterView {
            namespace: self.namespace@,
            lease: match self.lease {
                Some(l) => Some(lease_view(l)),
                None => None,
            },
        }
    }
}

/// Whether a lease has ended.
pub open spec fn expired(lease: Option<LeaseView>, now: u64) -> bool {
    lease is Some && lease->0.expires_at <= now
}

/// Whether a lease is for a dictation before `generation`.
pub open spec fn outdated(lease: Option<LeaseView>, generation: u64) -> bool {
    lease is Some && newer(generation, lease->0.generation)
}

/// A lease that is revoked where `gone` holds.
pub open spec fn kept(lease: Option<LeaseView>, gone: bool) -> Option<LeaseView> {
    if gone {
        None
    } else {
        lease
    }
}

/// Whether a revocation changes what is shown: only a program that shows the dictation is
/// missed.
pub open spec fn missed(lease: Option<LeaseView>, gone: bool) -> bool {
    gone && lease is Some && lease->0.ready
}

/// Whether the time of a lease is acceptable.
pub open spec fn ttl_ok(ttl_ms: u64) -> bool {
    MIN_TTL_MS <= ttl_ms <= MAX_TTL_MS
}

/// What is answered to a time that is not.
pub open spec fn ttl_text() -> Seq<char> {
    "dictation presenter: ttl_ms must be between 500 and 60000"@
}

/// What is answered to a request that is refused.
pub open spec fn refusal(why: Refusal) -> Seq<char> {
    match why {
        Refusal::InvalidSession => "dictation presenter: invalid session"@,
        Refusal::NotCurrent => "dictation presenter: session is no longer active"@,
        Refusal::Taken => "dictation presenter: a presenter lease is already active"@,
        Refusal::NotFound => "dictation presenter: lease not found"@,
        Refusal::Mismatch => "dictation presenter: lease does not match"@,
        Refusal::NotReady => "dictation presenter: lease is not ready"@,
        Refusal::BadTtl => ttl_text(),
        Refusal::NoEntropy => "OS entropy must be available for presenter leases"@,
    }
}

/// Why a request is refused.
#[derive(Debug, Clone, Copy, PartialEq, Eq, Structural)]
pub enum Refusal {
    /// The id is none of this registry's.
    InvalidSession,
    /// The dictation is not the one that is under way.
    NotCurrent,
    /// Another lease is out.
    Taken,
    /// No lease is out.
    NotFound,
    /// Another lease is out than the one that is named.
    Mismatch,
    /// The program does not show the dictation yet.
    NotReady,
    /// The time is not acceptable.
    BadTtl,
    /// The system gave no random bytes to name the lease.
    NoEntropy,
}

fn refusal_message(why: Refusal) -> (r: String)
    ensures
        r@ == refusal(why),
{
    match why {
        Refusal::InvalidSession => "dictation presenter: invalid session".to_owned(),
        Refusal::NotCurrent => "dictation presenter: session is no longer active".to_owned(),
        Refusal::Taken => "dictation presenter: a presenter lease is already active".to_owned(),
        Refusal::NotFound => "dictation presenter: lease not found".to_owned(),
        Refusal::Mismatch => "dictation presenter: lease does not match".to_owned(),
        Refusal::NotReady => "dictation presenter: lease is not ready".to_owned(),
        Refusal::BadTtl =>
            "dictation presenter: ttl_ms must be between 500 and 60000".to_owned(),
        Refusal::NoEntropy => "OS entropy must be available for presenter leases".to_owned(),
    }
}

fn mutation_error<T>(why: Refusal, changed: bool) -> (r: PresenterMutation<T>)
    ensures
        r.changed == changed,
        r.result is Err,
        r.result->Err_0@ == refusal(why),
{
    PresenterMutation { result: Err(refusal_message(why)), changed }
}

/// What a request leads to: the lease that is out afterwards, why the request is refused
/// where it is, and whether what is shown has changed.
#[verifier::ext_equal]
pub struct Decision {
    pub lease: Option<LeaseView>,
    pub refused: Option<Refusal>,
    pub changed: bool,
}

/// A request for a lease. A lease is given for the dictation that is under way, where no
/// other is out; one that has ended or is for an earlier dictation is revoked first.
/// `id` names the lease, where the system gave random bytes for it.
pub open spec fn acquiring(
    v: PresenterView,
    session: Seq<char>,
    current: Option<Seq<char>>,
    ttl_ms: u64,
    id: Option<Seq<char>>,
    now: u64,
) -> Decision {
    if !ttl_ok(ttl_ms) {
        Decision { lease: v.lease, refused: Some(Refusal::BadTtl), changed: false }
    } else if generation_of(v.namespace, session) is None {
        Decision { lease: v.lease, refused: Some(Refusal::InvalidSession), changed: false }
    } else {
        let generation = generation_of(v.namespace, session)->0 as u64;
        let ended = expired(v.lease, now);
        let a = kept(v.lease, ended);
        if current != Some(session) {
            Decision {
                lease: a,
                refused: Some(Refusal::NotCurrent),
                changed: missed(v.lease, ended),
            }
        } else {
            let late = outdated(a, generation);
            let b = kept(a, late);
            let changed = missed(v.lease, ended) || missed(a, late);
            if b is Some {
                Decision { lease: b, refused: Some(Refusal::Taken), changed }
            } else {
                match id {
                    None => Decision { lease: None, refused: Some(Refusal::NoEntropy), changed },
                    Some(name) => Decision {
                        lease: Some(
                            LeaseView {
                                id: name,
                                session_id: session,
                                generation,
                                ready: false,
                                expires_at: now.saturating_add(ttl_ms),
                            },
                        ),
                        refused: None,
                        changed,
                    },
                }
            }
        }
    }
}

/// Whether a lease for `generation` is revoked by a request that does not belong to the
/// dictation under way: there is none, or a later one.
pub open spec fn superseded(
    namespace: Seq<char>,
    current: Option<Seq<char>>,
    generation: u64,
) -> bool {
    match current {
        None => true,
        Some(c) => generation_of(namespace, c) is Some && newer(
            generation_of(namespace, c)->0 as u64,
            generation,
        ),
    }
}

/// A request by the holder of a lease, up to where it is about the dictation under way:
/// refused, or granted with the lease as it is.
pub open spec fn holding(
    v: PresenterView,
    lease_id: Seq<char>,
    session: Seq<char>,
    current: Option<Seq<char>>,
    now: u64,
) -> Decision {
    let ended = expired(v.lease, now);
    let a = kept(v.lease, ended);
    let changed = missed(v.lease, ended);
    match a {
        None => Decision { lease: a, refused: Some(Refusal::NotFound), changed },
        Some(l) => if l.id != lease_id || l.session_id != session {
            Decision { lease: a, refused: Some(Refusal::Mismatch), changed }
        } else if current != Some(l.session_id) {
            let gone = superseded(v.namespace, current, l.generation);
            Decision {
                lease: kept(a, gone),
                refused: Some(Refusal::NotCurrent),
                changed: changed || missed(a, gone),
            }
        } else {
            Decision { lease: a, refused: None, changed }
        },
    }
}

/// The holder of a lease shows the dictation.
pub open spec fn readied(
    v: PresenterView,
    lease_id: Seq<char>,
    session: Seq<char>,
    current: Option<Seq<char>>,
    now: u64,
) -> Decision {
    let d = holding(v, lease_id, session, current, now);
    if d.refused is Some {
        d
    } else {
        Decision {
            lease: Some(LeaseView { ready: true, ..d.lease->0 }),
            changed: d.changed || !d.lease->0.ready,
            ..d
        }
    }
}

/// The holder of a lease asks for more time, which it gets only while it shows the
/// dictation.
pub open spec fn renewing(
    v: PresenterView,
    lease_id: Seq<char>,
    session: Seq<char>,
    current: Option<Seq<char>>,
    ttl_ms: u64,
    now: u64,
) -> Decision {
    let d = holding(v, lease_id, session, current, now);
    if !ttl_ok(ttl_ms) {
        Decision { lease: v.lease, refused: Some(Refusal::BadTtl), changed: false }
    } else if d.refused is Some {
        d
    } else if !d.lease->0.ready {
        Decision { refused: Some(Refusal::NotReady), ..d }
    } else {
        Decision {
            lease: Some(LeaseView { expires_at: now.saturating_add(ttl_ms), ..d.lease->0 }),
            ..d
        }
    }
}

/// The holder of a lease gives it back.
pub open spec fn releasing(v: PresenterView, lease_id: Seq<char>, session: Seq<char>, now: u64)
    -> Decision {
    let ended = expired(v.lease, now);
    let a = kept(v.lease, ended);
    let changed = missed(v.lease, ended);
    match a {
        None => Decision { lease: None, refused: Some(Refusal::NotFound), changed },
        Some(l) => if l.id != lease_id || l.session_id != session {
            Decision { lease: a, refused: Some(Refusal::Mismatch), changed }
        } else {
            Decision { lease: None, refused: None, changed: changed || l.ready }
        },
    }
}

/// The lease that is out when the dictation `current` is under way.
pub open spec fn looked_at(v: PresenterView, current: Option<Seq<char>>, now: u64) -> Decision {
    let ended = expired(v.lease, now);
    let a = kept(v.lease, ended);
    let late = match current {
        Some(c) => generation_of(v.namespace, c) is Some && outdated(
            a,
            generation_of(v.namespace, c)->0 as u64,
        ),
        None => false,
    };
    Decision {
        lease: kept(a, late),
        refused: None,
        changed: missed(v.lease, ended) || missed(a, late),
    }
}

/// Whether the holder of a lease shows the dictation `current`.
pub open spec fn shown_by(lease: Option<LeaseView>, current: Option<Seq<char>>) -> bool {
    lease is Some && lease->0.ready && current == Some(lease->0.session_id)
}

/// Whether an answer is what was decided.
pub open spec fn answers<T>(r: PresenterMutation<T>, d: Decision) -> bool {
    &&& r.changed == d.changed
    &&& r.result is Err <==> d.refused is Some
    &&& d.refused is Some ==> r.result->Err_0@ == refusal(d.refused->0)
}

impl DictationPresenterRegistry {
    /// A registry under a name.
    pub fn named(namespace: String) -> (r: Self)
        ensures
            r@ == (PresenterView { namespace: namespace@, lease: None }),
    {
        DictationPresenterRegistry { namespace, lease: None }
    }

    /// A registry under a random name, so that the ids of two registries differ; none
    /// where the system gives no random bytes.
    pub fn new() -> (r: Option<Self>)
        ensures
            r is Some ==> r->0@.lease is None && is_random_hex(
                r->0@.namespace,
                NAMESPACE_BYTES as nat,
            ),
    {
        DictationPresenterRegistry::named_if_any(random_hex(NAMESPACE_BYTES))
    }

    /// A registry under a name, where there is a name for it.
    pub fn named_if_any(namespace: Option<String>) -> (r: Option<Self>)
        ensures
            r is Some <==> namespace is Some,
            r is Some ==> r->0@ == (PresenterView { namespace: namespace->0@, lease: None }),
    {
        match namespace {
            Some(name) => Some(DictationPresenterRegistry::named(name)),
            None => None,
        }
    }

    /// The id of a dictation.
    pub fn session_id(&self, presentation_id: u64) -> (r: String)
        ensures
            r@ == session_text(self@.namespace, presentation_id),
    {
        let digits = hex16(presentation_id);
        join3(self.namespace.as_str(), "-", digits.as_str())
    }

    /// The number of the dictation that an id names, where it is one of this registry's.
    fn session_generation(&self, session_id: &str) -> (r: Option<u64>)
        ensures
            r is Some <==> generation_of(self@.namespace, session_id@) is Some,
            r is Some ==> r->0 == generation_of(self@.namespace, session_id@)->0,
    {
        match after_prefix(session_id, self.namespace.as_str()) {
            None => None,
            Some(rest) => match after_prefix(rest.as_str(), "-") {
                None => None,
                Some(digits) => {
                    if chars_of(digits.as_str()).len() == 16 {
                        parse_number(digits.as_str(), 16, u64::MAX)
                    } else {
                        None
                    }
                },
            },
        }
    }

    /// Revokes a lease that has ended; whether what is shown has changed.
    fn prune_expired(&mut self, now: u64) -> (r: bool)
        ensures
            r == missed(old(self)@.lease, expired(old(self)@.lease, now)),
            final(self)@ == (PresenterView {
                lease: kept(old(self)@.lease, expired(old(self)@.lease, now)),
                ..old(self)@
            }),
    {
        let (revoke, ready) = match &self.lease {
            Some(l) => (l.expires_at <= now, l.ready),
            None => (false, false),
        };
        if revoke {
            self.lease = None;
        }
        revoke && ready
    }

    /// Revokes a lease for an earlier dictation; whether what is shown has changed.
    fn prune_older_generation(&mut self, generation: u64) -> (r: bool)
        ensures
            r == missed(old(self)@.lease, outdated(old(self)@.lease, generation)),
            final(self)@ == (PresenterView {
                lease: kept(old(self)@.lease, outdated(old(self)@.lease, generation)),
                ..old(self)@
            }),
    {
        let (revoke, ready) = match &self.lease {
            Some(l) => (generation_is_newer(generation, l.generation), l.ready),
            None => (false, false),
        };
        if revoke {
            self.lease = None;
        }
        revoke && ready
    }

    /// A request for a lease, with the name that it would have.
    pub fn acquire_named(
        &mut self,
        session_id: String,
        current_session_id: Option<&str>,
        ttl_ms: u64,
        id: Option<String>,
        now: u64,
    ) -> (r: PresenterMutation<AcquiredLease>)
        ensures
            ({
                let d = acquiring(
                    old(self)@,
                    session_id@,
                    str_opt(current_session_id),
                    ttl_ms,
                    text_opt(id),
                    now,
                );
                &&& answers(r, d)
                &&& final(self)@ == (PresenterView { lease: d.lease, ..old(self)@ })
                &&& r.result is Ok ==> r.result->Ok_0.id@ == d.lease->0.id
                    && r.result->Ok_0.ttl_ms == ttl_ms
            }),
    {
        if ttl_ms < MIN_TTL_MS || ttl_ms > MAX_TTL_MS {
            return mutation_error(Refusal::BadTtl, false);
        }
        let generation: u64 = match self.session_generation(session_id.as_str()) {
            Some(g) => g,
            None => {
                return mutation_error(Refusal::InvalidSession, false);
            },
        };
        let mut changed = self.prune_expired(now);
        if !same_text_opt(current_session_id, Some(session_id.as_str())) {
            return mutation_error(Refusal::NotCurrent, changed);
        }
        let revoked = self.prune_older_generation(generation);
        changed = changed || revoked;
        if self.lease.is_some() {
            return mutation_error(Refusal::Taken, changed);
        }
        match id {
            None => mutation_error(Refusal::NoEntropy, changed),
            Some(name) => {
                let acquired = AcquiredLease { id: name.as_str().to_owned(), ttl_ms };
                self.lease = Some(
                    Lease {
                        id: name,
                        session_id,
                        generation,
                        ready: false,
                        expires_at: now.saturating_add(ttl_ms),
                    },
                );
                PresenterMutation { result: Ok(acquired), changed }
            },
        }
    }

    /// A request for a lease. Its name is random, where the system gives random bytes;
    /// where it gives none, a request that would be granted is refused.
    pub fn acquire(
        &mut self,
        session_id: String,
        current_session_id: Option<&str>,
        ttl_ms: u64,
        now: u64,
    ) -> (r: PresenterMutation<AcquiredLease>)
        ensures
            exists|id: Option<Seq<char>>|
                {
                    let d = #[trigger] acquiring(
                        old(self)@,
                        session_id@,
                        str_opt(current_session_id),
                        ttl_ms,
                        id,
                        now,
                    );
                    &&& id is Some ==> is_random_hex(id->0, LEASE_BYTES as nat)
                    &&& answers(r, d)
                    &&& final(self)@ == (PresenterView { lease: d.lease, ..old(self)@ })
                    &&& r.result is Ok ==> r.result->Ok_0.id@ == d.lease->0.id
                        && r.result->Ok_0.ttl_ms == ttl_ms
                },
    {
        let id = random_hex(LEASE_BYTES);
        let ghost name = text_opt(id);
        let ghost asked = session_id@;
        let r = self.acquire_named(session_id, current_session_id, ttl_ms, id, now);
        assert(answers(
            r,
            acquiring(old(self)@, asked, str_opt(current_session_id), ttl_ms, name, now),
        ));
        r
    }

    /// A request by the holder of a lease, up to where it is about the dictation under
    /// way.
    fn hold(
        &mut self,
        lease_id: &str,
        session_id: &str,
        current_session_id: Option<&str>,
        now: u64,
    ) -> (r: (Option<Refusal>, bool))
        ensures
            ({
                let d = holding(
                    old(self)@,
                    lease_id@,
                    session_id@,
                    str_opt(current_session_id),
                    now,
                );
                &&& r.0 == d.refused
                &&& r.1 == d.changed
                &&& final(self)@ == (PresenterView { lease: d.lease, ..old(self)@ })
            }),
    {
        let changed = self.prune_expired(now);
        let (generation, ready) = match &self.lease {
            None => {
                return (Some(Refusal::NotFound), changed);
            },
            Some(l) => {
                if !same_text(l.id.as_str(), lease_id) || !same_text(
                    l.session_id.as_str(),
                    session_id,
                ) {
                    return (Some(Refusal::Mismatch), changed);
                }
                if same_text_opt(current_session_id, Some(l.session_id.as_str())) {
                    return (None, changed);
                }
                (l.generation, l.ready)
            },
        };
        let gone = match current_session_id {
            None => true,
            Some(c) => match self.session_generation(c) {
                Some(g) => generation_is_newer(g, generation),
                None => false,
            },
        };
        if gone {
            self.lease = None;
        }
        (Some(Refusal::NotCurrent), changed || (gone && ready))
    }

    /// The holder of a lease shows the dictation.
    pub fn ready(
        &mut self,
        lease_id: &str,
        session_id: &str,
        current_session_id: Option<&str>,
        now: u64,
    ) -> (r: PresenterMutation<()>)
        ensures
            ({
                let d = readied(
                    old(self)@,
                    lease_id@,
                    session_id@,
                    str_opt(current_session_id),
                    now,
                );
                &&& answers(r, d)
                &&& final(self)@ == (PresenterView { lease: d.lease, ..old(self)@ })
            }),
    {
        let (refused, changed) = self.hold(lease_id, session_id, current_session_id, now);
        match refused {
            Some(why) => {
                return mutation_error(why, changed);
            },
            None => {},
        }
        let mut first = false;
        match self.lease.take() {
            Some(l) => {
                first = !l.ready;
                self.lease = Some(
                    Lease {
                        id: l.id,
                        session_id: l.session_id,
                        generation: l.generation,
                        ready: true,
                        expires_at: l.expires_at,
                    },
                );
            },
            None => {},
        }
        PresenterMutation { result: Ok(()), changed: changed || first }
    }

    /// The holder of a lease asks for more time.
    pub fn renew(
        &mut self,
        lease_id: &str,
        session_id: &str,
        current_session_id: Option<&str>,
        ttl_ms: u64,
        now: u64,
    ) -> (r: PresenterMutation<()>)
        ensures
            ({
                let d = renewing(
                    old(self)@,
                    lease_id@,
                    session_id@,
                    str_opt(current_session_id),
                    ttl_ms,
                    now,
                );
                &&& answers(r, d)
                &&& final(self)@ == (PresenterView { lease: d.lease, ..old(self)@ })
            }),
    {
        if ttl_ms < MIN_TTL_MS || ttl_ms > MAX_TTL_MS {
            return mutation_error(Refusal::BadTtl, false);
        }
        let (refused, changed) = self.hold(lease_id, session_id, current_session_id, now);
        match refused {
            Some(why) => {
                return mutation_error(why, changed);
            },
            None => {},
        }
        match self.lease.take() {
            Some(l) => {
                if !l.ready {
                    self.lease = Some(l);
                    return mutation_error(Refusal::NotReady, changed);
                }
                self.lease = Some(
                    Lease {
                        id: l.id,
                        session_id: l.session_id,
                        generation: l.generation,
                        ready: l.ready,
                        expires_at: now.saturating_add(ttl_ms),
                    },
                );
            },
            None => {},
        }
        PresenterMutation { result: Ok(()), changed }
    }

    /// The holder of a lease gives it back.
    pub fn release(&mut self, lease_id: &str, session_id: &str, now: u64) -> (r:
        PresenterMutation<()>)
        ensures
            ({
                let d = releasing(old(self)@, lease_id@, session_id@, now);
                &&& answers(r, d)
                &&& final(self)@ == (PresenterView { lease: d.lease, ..old(self)@ })
            }),
    {
        let changed = self.prune_expired(now);
        let ready = match &self.lease {
            None => {
                return mutation_error(Refusal::NotFound, changed);
            },
            Some(l) => {
                if !same_text(l.id.as_str(), lease_id) || !same_text(
                    l.session_id.as_str(),
                    session_id,
                ) {
                    return mutation_error(Refusal::Mismatch, changed);
                }
                l.ready
            },
        };
        self.lease = None;
        PresenterMutation { result: Ok(()), changed: changed || ready }
    }

    /// Whether another program shows the dictation that is under way, and whether what is
    /// shown has changed.
    pub fn external_ui_active(&mut self, current_session_id: Option<&str>, now: u64) -> (r: (
        bool,
        bool,
    ))
        ensures
            ({
                let d = looked_at(old(self)@, str_opt(current_session_id), now);
                &&& r.0 == shown_by(d.lease, str_opt(current_session_id))
                &&& r.1 == d.changed
                &&& final(self)@ == (PresenterView { lease: d.lease, ..old(self)@ })
            }),
    {
        let mut changed = self.prune_expired(now);
        match current_session_id {
            Some(c) => match self.session_generation(c) {
                Some(g) => {
                    let revoked = self.prune_older_generation(g);
                    changed = changed || revoked;
                },
                None => {},
            },
            None => {},
        }
        let active = match &self.lease {
            Some(l) => l.ready && same_text_opt(current_session_id, Some(l.session_id.as_str())),
            None => false,
        };
        (active, changed)
    }

    /// The lease that is out: the dictation that it is for, and whether its holder shows
    /// it.
    pub fn current(&self) -> (r: Option<(String, bool)>)
        ensures
            match r {
                Some(c) => self@.lease is Some && c.0@ == self@.lease->0.session_id && c.1
                    == self@.lease->0.ready,
                None => self@.lease is None,
            },
    {
        match &self.lease {
            Some(l) => Some((l.session_id.as_str().to_owned(), l.ready)),
            None => None,
        }
    }
}

// ── Laws ─────────────────────────────────────────────────────────────────────

/// A lease that was just given shows nothing: its holder must say first that it shows
/// the dictation.
pub proof fn law_acquired_is_not_shown(
    v: PresenterView,
    session: Seq<char>,
    current: Option<Seq<char>>,
    ttl_ms: u64,
    id: Option<Seq<char>>,
    now: u64,
    other: Option<Seq<char>>,
)
    requires
        acquiring(v, session, current, ttl_ms, id, now).refused is None,
    ensures
        !shown_by(acquiring(v, session, current, ttl_ms, id, now).lease, other),
{
}

/// While a lease is out that has not ended and is not for an earlier dictation, no other
/// is given, and it stays as it is.
pub proof fn law_live_lease_is_not_replaced(
    v: PresenterView,
    session: Seq<char>,
    current: Option<Seq<char>>,
    ttl_ms: u64,
    id: Option<Seq<char>>,
    now: u64,
)
    requires
        v.lease is Some,
        !expired(v.lease, now),
        generation_of(v.namespace, session) is Some ==> !outdated(
            v.lease,
            generation_of(v.namespace, session)->0 as u64,
        ),
    ensures
        acquiring(v, session, current, ttl_ms, id, now).refused is Some,
        acquiring(v, session, current, ttl_ms, id, now).lease == v.lease,
        !acquiring(v, session, current, ttl_ms, id, now).changed,
{
}

/// A request that names another lease or another dictation than the one that is out
/// leaves it as it is.
pub proof fn law_foreign_request_changes_nothing(
    v: PresenterView,
    lease_id: Seq<char>,
    session: Seq<char>,
    current: Option<Seq<char>>,
    ttl_ms: u64,
    now: u64,
)
    requires
        v.lease is Some,
        !expired(v.lease, now),
        v.lease->0.id != lease_id || v.lease->0.session_id != session,
    ensures
        readied(v, lease_id, session, current, now).refused is Some,
        readied(v, lease_id, session, current, now).lease == v.lease,
        renewing(v, lease_id, session, current, ttl_ms, now).refused is Some,
        renewing(v, lease_id, session, current, ttl_ms, now).lease == v.lease,
        releasing(v, lease_id, session, now).refused is Some,
        releasing(v, lease_id, session, now).lease == v.lease,
{
}

/// The dictation that the holder of a lease shows, where it shows one.
pub open spec fn showing(lease: Option<LeaseView>) -> Option<Seq<char>> {
    if lease is Some && lease->0.ready {
        Some(lease->0.session_id)
    } else {
        None
    }
}

/// Whatever is asked, a change is reported exactly where another dictation is shown than
/// before, or one is shown no longer, or only now.
pub proof fn law_change_is_what_is_shown(
    v: PresenterView,
    lease_id: Seq<char>,
    session: Seq<char>,
    current: Option<Seq<char>>,
    ttl_ms: u64,
    id: Option<Seq<char>>,
    now: u64,
)
    ensures
        ({
            let d = acquiring(v, session, current, ttl_ms, id, now);
            d.changed <==> showing(d.lease) != showing(v.lease)
        }),
        ({
            let d = readied(v, lease_id, session, current, now);
            d.changed <==> showing(d.lease) != showing(v.lease)
        }),
        ({
            let d = renewing(v, lease_id, session, current, ttl_ms, now);
            d.changed <==> showing(d.lease) != showing(v.lease)
        }),
        ({
            let d = releasing(v, lease_id, session, now);
            d.changed <==> showing(d.lease) != showing(v.lease)
        }),
        ({
            let d = looked_at(v, current, now);
            d.changed <==> showing(d.lease) != showing(v.lease)
        }),
{
}

/// The dictation is shown by another program only while its lease runs: once it has
/// ended or was given back, nothing is shown.
pub proof fn law_ended_lease_shows_nothing(
    v: PresenterView,
    lease_id: Seq<char>,
    session: Seq<char>,
    current: Option<Seq<char>>,
    now: u64,
)
    ensures
        expired(v.lease, now) ==> !shown_by(looked_at(v, current, now).lease, current),
        releasing(v, lease_id, session, now).refused is None ==> releasing(
            v,
            lease_id,
            session,
            now,
        ).lease is None,
{
}

/// A renewed lease runs on until its new end, and is shown as before.
pub proof fn law_renewed_lease_runs_on(
    v: PresenterView,
    lease_id: Seq<char>,
    session: Seq<char>,
    current: Option<Seq<char>>,
    ttl_ms: u64,
    now: u64,
    later: u64,
)
    requires
        renewing(v, lease_id, session, current, ttl_ms, now).refused is None,
        later < now.saturating_add(ttl_ms),
    ensures
        ({
            let lease = renewing(v, lease_id, session, current, ttl_ms, now).lease;
            &&& !expired(lease, later)
            &&& shown_by(lease, current)
        }),
{
}

/// When a lease is given: its time is between half a second and a minute, it is for the
/// dictation that is under way, and no lease is out but one that has ended or is for an
/// earlier dictation. It then holds what was asked, and runs from now.
pub proof fn law_when_a_lease_is_given(
    v: PresenterView,
    generation: u64,
    ttl_ms: u64,
    id: Seq<char>,
    now: u64,
)
    ensures
        ({
            let session = session_text(v.namespace, generation);
            let d = acquiring(v, session, Some(session), ttl_ms, Some(id), now);
            let free = match v.lease {
                None => true,
                Some(l) => l.expires_at <= now || newer(generation, l.generation),
            };
            &&& d.refused is None <==> 500 <= ttl_ms <= 60_000 && free
            &&& d.refused is None && now + ttl_ms <= u64::MAX ==> d.lease == Some(
                LeaseView {
                    id,
                    session_id: session,
                    generation,
                    ready: false,
                    expires_at: (now + ttl_ms) as u64,
                },
            )
            &&& !(500 <= ttl_ms <= 60_000) ==> d.refused == Some(Refusal::BadTtl) && d.lease
                == v.lease
            &&& 500 <= ttl_ms <= 60_000 && !free ==> d.refused == Some(Refusal::Taken) && d.lease
                == v.lease
            &&& acquiring(v, session, None, ttl_ms, Some(id), now).refused is Some
            &&& 500 <= ttl_ms <= 60_000 && free ==> acquiring(
                v,
                session,
                Some(session),
                ttl_ms,
                None,
                now,
            ).refused == Some(Refusal::NoEntropy)
        }),
{
    law_session_id_names_its_generation(v.namespace, generation);
}

/// An id that is none of the registry's gets no lease.
pub proof fn law_foreign_id_gets_no_lease(
    v: PresenterView,
    session: Seq<char>,
    current: Option<Seq<char>>,
    ttl_ms: u64,
    id: Option<Seq<char>>,
    now: u64,
)
    requires
        500 <= ttl_ms <= 60_000,
        generation_of(v.namespace, session) is None,
    ensures
        acquiring(v, session, current, ttl_ms, id, now) == (Decision {
            lease: v.lease,
            refused: Some(Refusal::InvalidSession),
            changed: false,
        }),
{
}

/// What the holder of a running lease may do while its dictation is under way: say that it
/// shows it, ask for more time once it does, and give the lease back.
pub proof fn law_what_the_holder_may_do(v: PresenterView, l: LeaseView, ttl_ms: u64, now: u64)
    requires
        v.lease == Some(l),
        now < l.expires_at,
        generation_of(v.namespace, l.session_id) == Some(l.generation as int),
    ensures
        readied(v, l.id, l.session_id, Some(l.session_id), now) == (Decision {
            lease: Some(LeaseView { ready: true, ..l }),
            refused: None,
            changed: !l.ready,
        }),
        500 <= ttl_ms <= 60_000 && l.ready && now + ttl_ms <= u64::MAX ==> renewing(
            v,
            l.id,
            l.session_id,
            Some(l.session_id),
            ttl_ms,
            now,
        ) == (Decision {
            lease: Some(LeaseView { expires_at: (now + ttl_ms) as u64, ..l }),
            refused: None,
            changed: false,
        }),
        500 <= ttl_ms <= 60_000 && !l.ready ==> renewing(
            v,
            l.id,
            l.session_id,
            Some(l.session_id),
            ttl_ms,
            now,
        ).refused == Some(Refusal::NotReady),
        !(500 <= ttl_ms <= 60_000) ==> renewing(
            v,
            l.id,
            l.session_id,
            Some(l.session_id),
            ttl_ms,
            now,
        ).refused == Some(Refusal::BadTtl),
        releasing(v, l.id, l.session_id, now) == (Decision {
            lease: None,
            refused: None,
            changed: l.ready,
        }),
        looked_at(v, Some(l.session_id), now).lease == Some(l),
        shown_by(Some(LeaseView { ready: true, ..l }), Some(l.session_id)),
        !shown_by(Some(LeaseView { ready: false, ..l }), Some(l.session_id)),
{
    assert(l.generation.wrapping_sub(l.generation) == 0);
}

/// A lease that has ended is nobody's: whatever its holder asks, none is found, and it is
/// gone.
pub proof fn law_ended_lease_is_gone(
    v: PresenterView,
    l: LeaseView,
    current: Option<Seq<char>>,
    now: u64,
)
    requires
        v.lease == Some(l),
        l.expires_at <= now,
    ensures
        readied(v, l.id, l.session_id, current, now).refused == Some(Refusal::NotFound),
        readied(v, l.id, l.session_id, current, now).lease is None,
        releasing(v, l.id, l.session_id, now).refused == Some(Refusal::NotFound),
        looked_at(v, current, now).lease is None,
        looked_at(v, current, now).changed == l.ready,
{
}

/// A holder whose dictation is over is told so, and its lease is taken back where no
/// dictation is under way or a later one is.
pub proof fn law_lease_ends_with_its_dictation(v: PresenterView, l: LeaseView, later: u64, now: u64)
    requires
        v.lease == Some(l),
        now < l.expires_at,
        newer(later, l.generation),
        l.session_id != session_text(v.namespace, later),
    ensures
        ({
            let next = session_text(v.namespace, later);
            &&& readied(v, l.id, l.session_id, None, now) == (Decision {
                lease: None,
                refused: Some(Refusal::NotCurrent),
                changed: l.ready,
            })
            &&& readied(v, l.id, l.session_id, Some(next), now) == (Decision {
                lease: None,
                refused: Some(Refusal::NotCurrent),
                changed: l.ready,
            })
            &&& looked_at(v, Some(next), now).lease is None
        }),
{
    law_session_id_names_its_generation(v.namespace, later);
}

/// Of two dictations the one with the greater number came later, as long as fewer than half
/// of all numbers lie between them.
pub proof fn law_greater_number_is_later(a: u64, b: u64)
    requires
        a < b,
    ensures
        b - a < 0x8000_0000_0000_0000 ==> newer(b, a) && !newer(a, b),
        b - a > 0x8000_0000_0000_0000 ==> newer(a, b) && !newer(b, a),
{
}

/// A refused request is answered with its reason.
pub proof fn law_refusals_say_why(why: Refusal)
    ensures
        refusal(why) == (match why {
            Refusal::InvalidSession => "dictation presenter: invalid session"@,
            Refusal::NotCurrent => "dictation presenter: session is no longer active"@,
            Refusal::Taken => "dictation presenter: a presenter lease is already active"@,
            Refusal::NotFound => "dictation presenter: lease not found"@,
            Refusal::Mismatch => "dictation presenter: lease does not match"@,
            Refusal::NotReady => "dictation presenter: lease is not ready"@,
            Refusal::BadTtl => "dictation presenter: ttl_ms must be between 500 and 60000"@,
            Refusal::NoEntropy => "OS entropy must be available for presenter leases"@,
        }),
{
}

/// A random name is two digits for each of its bytes, and the digits of any bytes are such
/// a name.
pub proof fn law_random_names_are_digits_of_bytes(b: Seq<u8>, s: Seq<char>, n: nat)
    ensures
        is_random_hex(hex_bytes(b), b.len()),
        is_random_hex(s, n) ==> s.len() == 2 * n,
{
    if is_random_hex(s, n) {
        let bytes = choose|b: Seq<u8>| b.len() == n && s == #[trigger] hex_bytes(b);
        crate::text::law_bytes_are_written_in_hex(bytes, 0);
    }
}

} // verus!
