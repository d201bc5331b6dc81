//! The issuance flows' own state: pending sessions kept between starting an
//! order and completing it, the steps of completing an order, and the
//! lineage of a renewed certificate.
use vstd::prelude::*;

use crate::issuance::{authorization_needs_challenge, AuthorizationState};
use crate::text::{cat, str_eq};

verus! {

// ---------------------------------------------------------------------------
// Pending sessions
// ---------------------------------------------------------------------------

/// The map that a list of (id, session) entries stands for: a later entry
/// with the same id replaces an earlier one.
pub closed spec fn session_map<T>(s: Seq<(String, T)>) -> Map<Seq<char>, T>
    decreases s.len(),
{
    if s.len() == 0 {
        Map::empty()
    } else {
        session_map(s.drop_last()).insert(s.last().0@, s.last().1)
    }
}

/// Sessions waiting to be completed, by request id.
pub struct PendingSessions<T> {
    entries: Vec<(String, T)>,
}

impl<T> View for PendingSessions<T> {
    type V = Map<Seq<char>, T>;

    closed spec fn view(&self) -> Map<Seq<char>, T> {
        session_map(self.entries@)
    }
}

impl<T> PendingSessions<T> {
    /// No session is pending.
    pub fn new() -> (r: Self)
        ensures
            r@ == Map::<Seq<char>, T>::empty(),
    {
        PendingSessions { entries: Vec::new() }
    }
}

/// No entry has the id: the map has no session for it.
proof fn lemma_absent<T>(s: Seq<(String, T)>, k: Seq<char>)
    requires
        forall|i: int| 0 <= i < s.len() ==> (#[trigger] s[i]).0@ != k,
    ensures
        !session_map(s).contains_key(k),
    decreases s.len(),
{
    if s.len() > 0 {
        assert forall|i: int| 0 <= i < s.drop_last().len() implies (#[trigger] s.drop_last()[i]).0@ != k by {
            assert(s.drop_last()[i] == s[i]);
        }
        lemma_absent(s.drop_last(), k);
    }
}

/// The last entry with the id is the session the map holds for it.
proof fn lemma_last<T>(s: Seq<(String, T)>, k: Seq<char>, j: int)
    requires
        0 <= j < s.len(),
        s[j].0@ == k,
        forall|i: int| j < i < s.len() ==> (#[trigger] s[i]).0@ != k,
    ensures
        session_map(s).contains_key(k),
        session_map(s)[k] == s[j].1,
    decreases s.len(),
{
    if j < s.len() - 1 {
        let t = s.drop_last();
        assert forall|i: int| j < i < t.len() implies (#[trigger] t[i]).0@ != k by {
            assert(t[i] == s[i]);
        }
        lemma_last(t, k, j);
    }
}

/// Keeps a session under its id; a session already kept under that id is
/// replaced.
pub fn open_session<T>(s: &mut PendingSessions<T>, id: String, p: T)
    ensures
        final(s)@ == old(s)@.insert(id@, p),
{
    let ghost k = id@;
    s.entries.push((id, p));
    proof {
        let e = s.entries@;
        assert(e.drop_last() =~= old(s).entries@);
    }
}

/// Takes the session kept under `id` out of the store; where none is kept,
/// fails with `missing` and leaves the store as it was. A session can
/// therefore be taken once only.
pub fn take_session<T>(s: &mut PendingSessions<T>, id: &str, missing: &str) -> (r: Result<T, String>)
    ensures
        old(s)@.contains_key(id@) ==> r == Ok::<T, String>(old(s)@[id@]) && final(s)@ == old(s)@.remove(
            id@,
        ),
        !old(s)@.contains_key(id@) ==> (r matches Err(m) && m@ == missing@) && final(s)@ == old(s)@,
{
    let ghost orig = s.entries@;
    let ghost k = id@;
    // The last entry with the id.
    let mut found: Option<usize> = None;
    let mut i: usize = 0;
    while i < s.entries.len()
        invariant
            s.entries@ == orig,
            i <= orig.len(),
            k == id@,
            found matches Some(j) ==> j < i && orig[j as int].0@ == k && forall|t: int|
                j < t < i ==> (#[trigger] orig[t]).0@ != k,
            found is None ==> forall|t: int| 0 <= t < i ==> (#[trigger] orig[t]).0@ != k,
        decreases orig.len() - i,
    {
        if str_eq(s.entries[i].0.as_str(), id) {
            found = Some(i);
        }
        i = i + 1;
    }
    let j = match found {
        None => {
            proof {
                lemma_absent(orig, k);
            }
            return Err(missing.to_string());
        },
        Some(j) => j,
    };
    proof {
        lemma_last(orig, k, j as int);
    }
    let mut rest: Vec<(String, T)> = Vec::new();
    std::mem::swap(&mut rest, &mut s.entries);
    let mut kept: Vec<(String, T)> = Vec::new();
    let mut taken: Option<T> = None;
    let mut n: usize = 0;
    assert(orig.take(0) =~= Seq::<(String, T)>::empty());
    assert(rest@ =~= orig.skip(0));
    while rest.len() > 0
        invariant
            n <= orig.len(),
            rest@ == orig.skip(n as int),
            k == id@,
            j < orig.len(),
            orig.len() <= usize::MAX,
            orig[j as int].0@ == k,
            session_map(kept@) == session_map(orig.take(n as int)).remove(k),
            n > j ==> taken == Some(orig[j as int].1),
        decreases rest@.len(),
    {
        let ghost before = kept@;
        let ghost x = orig[n as int];
        assert(orig.take(n as int + 1).drop_last() =~= orig.take(n as int));
        assert(orig.take(n as int + 1).last() == x);
        assert(rest@[0] == x);
        assert(n < orig.len());
        let e = rest.remove(0);
        assert(e == x);
        let (key, val) = e;
        assert(key@ == x.0@);
        assert(rest@ =~= orig.skip(n as int + 1));
        if str_eq(key.as_str(), id) {
            assert(session_map(kept@) =~= session_map(orig.take(n as int + 1)).remove(k));
            if n == j {
                taken = Some(val);
            }
        } else {
            kept.push((key, val));
            assert(kept@.drop_last() =~= before);
            assert(session_map(kept@) =~= session_map(orig.take(n as int + 1)).remove(k));
        }
        n = n + 1;
    }
    assert(n == orig.len());
    assert(orig.take(n as int) =~= orig);
    s.entries = kept;
    match taken {
        Some(v) => Ok(v),
        None => Err(missing.to_string()),
    }
}

/// A session finishes once: after it is taken, the store no longer holds
/// it, so taking it again fails; other sessions stay as they were.
pub proof fn lemma_session_finishes_once<T>(sessions: Map<Seq<char>, T>, id: Seq<char>, other: Seq<char>)
    requires
        other != id,
    ensures
        !sessions.remove(id).contains_key(id),
        sessions.remove(id).contains_key(other) == sessions.contains_key(other),
        sessions.contains_key(other) ==> sessions.remove(id)[other] == sessions[other],
{
}

// ---------------------------------------------------------------------------
// Renewal lineage
// ---------------------------------------------------------------------------

/// The certificate a new one renews: the given id where the inventory found
/// it, else none (a failed or empty lookup drops the lineage).
pub fn renewal_origin(id: Option<String>, lookup: Result<bool, String>) -> (r: Option<String>)
    ensures
        r == (if lookup == Ok::<bool, String>(true) {
            id
        } else {
            None
        }),
{
    match lookup {
        Ok(true) => id,
        _ => None,
    }
}

// ---------------------------------------------------------------------------
// Completing an order
// ---------------------------------------------------------------------------

/// Where the completion of an order stands.
#[derive(Debug, Clone, Copy, PartialEq, Eq, Structural)]
pub enum CompletionState {
    /// Walking the order's authorizations.
    Authorizing,
    /// Waiting for the DNS record of the current authorization to be seen.
    Verifying,
    /// All authorizations answered; waiting for the order to be ready.
    AwaitingReady,
    /// The order was finalized with the CSR; waiting for the chain.
    AwaitingChain,
    /// The chain arrived.
    Finished,
    /// The completion failed.
    Failed,
}

/// What the shell observed since the last step.
#[derive(Debug)]
pub enum CompletionEvent {
    /// The next authorization: its state, its identifier, and whether it
    /// offers a DNS-01 challenge.
    Authorization { status: AuthorizationState, identifier: String, has_dns01: bool },
    /// No authorization is left.
    AuthorizationsDone,
    /// The verdict of the propagation check of the current challenge.
    Propagation(Result<(), String>),
    /// The order's status once polled: whether it is ready, and its name.
    OrderStatus { ready: bool, status: String },
    /// The certificate chain, or why it could not be had.
    Chain(Result<String, String>),
}

/// What the shell does next.
#[derive(Debug)]
pub enum CompletionAction {
    /// Fetch the next authorization.
    NextAuthorization,
    /// Check that the current challenge's TXT record has propagated.
    CheckPropagation,
    /// Tell the CA the challenge is ready, then fetch the next authorization.
    SetReadyThenNext,
    /// Poll the order until it is ready.
    PollReady,
    /// Finalize the order with the CSR and poll for the chain.
    Finalize,
    /// Store the certificate built from this chain.
    StoreRecord(String),
    /// Stop with this error.
    Abort(String),
}

pub open spec fn out_of_order_text() -> Seq<char> {
    "issuance step out of order"@
}

/// The step is an abort with the given message, into the failed state.
pub open spec fn aborts_with(r: (CompletionState, CompletionAction), m: Seq<char>) -> bool {
    r.0 == CompletionState::Failed && (r.1 matches CompletionAction::Abort(t) && t@ == m)
}

/// One step of completing an order: authorizations are walked in turn (a
/// valid one is skipped, a pending one has its DNS-01 record checked and is
/// then marked ready), then the order is polled until ready, finalized, and
/// its chain stored. Any other status, a missing challenge, a failed check
/// or a missing chain stops the completion; an event that does not belong to
/// the current state stops it too.
pub fn complete_step(state: CompletionState, event: CompletionEvent) -> (r: (CompletionState, CompletionAction))
    ensures
        event matches CompletionEvent::Authorization { status, identifier, has_dns01 } ==> {
            &&& (state != CompletionState::Authorizing ==> aborts_with(r, out_of_order_text()))
            &&& (state == CompletionState::Authorizing ==> {
                &&& (status == AuthorizationState::Valid ==> r.0 == CompletionState::Authorizing
                    && r.1 is NextAuthorization)
                &&& (status == AuthorizationState::Pending && has_dns01 ==> r.0
                    == CompletionState::Verifying && r.1 is CheckPropagation)
                &&& (status == AuthorizationState::Pending && !has_dns01 ==> aborts_with(
                    r,
                    "no dns01 challenge found"@,
                ))
                &&& (status == AuthorizationState::Other ==> aborts_with(
                    r,
                    "unexpected authorization status for "@ + identifier@,
                ))
            })
        },
        event is AuthorizationsDone ==> {
            &&& (state == CompletionState::Authorizing ==> r.0 == CompletionState::AwaitingReady
                && r.1 is PollReady)
            &&& (state != CompletionState::Authorizing ==> aborts_with(r, out_of_order_text()))
        },
        event matches CompletionEvent::Propagation(verdict) ==> {
            &&& (state != CompletionState::Verifying ==> aborts_with(r, out_of_order_text()))
            &&& (state == CompletionState::Verifying ==> {
                &&& (verdict is Ok ==> r.0 == CompletionState::Authorizing && r.1 is SetReadyThenNext)
                &&& (verdict matches Err(e) ==> aborts_with(r, e@))
            })
        },
        event matches CompletionEvent::OrderStatus { ready, status } ==> {
            &&& (state != CompletionState::AwaitingReady ==> aborts_with(r, out_of_order_text()))
            &&& (state == CompletionState::AwaitingReady ==> {
                &&& (ready ==> r.0 == CompletionState::AwaitingChain && r.1 is Finalize)
                &&& (!ready ==> aborts_with(r, "unexpected order status: "@ + status@))
            })
        },
        event matches CompletionEvent::Chain(chain) ==> {
            &&& (state != CompletionState::AwaitingChain ==> aborts_with(r, out_of_order_text()))
            &&& (state == CompletionState::AwaitingChain ==> {
                &&& (chain matches Ok(c) ==> r.0 == CompletionState::Finished && (r.1 matches CompletionAction::StoreRecord(x) && x == c))
                &&& (chain matches Err(e) ==> aborts_with(r, e@))
            })
        },
{
    let out_of_order = (CompletionState::Failed, CompletionAction::Abort("issuance step out of order".to_string()));
    match event {
        CompletionEvent::Authorization { status, identifier, has_dns01 } => {
            if state != CompletionState::Authorizing {
                return out_of_order;
            }
            match authorization_needs_challenge(status, identifier.as_str()) {
                Ok(false) => (CompletionState::Authorizing, CompletionAction::NextAuthorization),
                Ok(true) => if has_dns01 {
                    (CompletionState::Verifying, CompletionAction::CheckPropagation)
                } else {
                    (CompletionState::Failed, CompletionAction::Abort("no dns01 challenge found".to_string()))
                },
                Err(m) => (CompletionState::Failed, CompletionAction::Abort(m)),
            }
        },
        CompletionEvent::AuthorizationsDone => if state == CompletionState::Authorizing {
            (CompletionState::AwaitingReady, CompletionAction::PollReady)
        } else {
            out_of_order
        },
        CompletionEvent::Propagation(verdict) => {
            if state != CompletionState::Verifying {
                return out_of_order;
            }
            match verdict {
                Ok(()) => (CompletionState::Authorizing, CompletionAction::SetReadyThenNext),
                Err(e) => (CompletionState::Failed, CompletionAction::Abort(e)),
            }
        },
        CompletionEvent::OrderStatus { ready, status } => {
            if state != CompletionState::AwaitingReady {
                return out_of_order;
            }
            if ready {
                (CompletionState::AwaitingChain, CompletionAction::Finalize)
            } else {
                (CompletionState::Failed, CompletionAction::Abort(cat("unexpected order status: ", status.as_str())))
            }
        },
        CompletionEvent::Chain(chain) => {
            if state != CompletionState::AwaitingChain {
                return out_of_order;
            }
            match chain {
                Ok(c) => (CompletionState::Finished, CompletionAction::StoreRecord(c)),
                Err(e) => (CompletionState::Failed, CompletionAction::Abort(e)),
            }
        },
    }
}

} // verus!
