//! The singleton session protocol: who owns the overlay, how a refresh from a
//! losing invocation reaches the owner, and when the session expires.
//!
//! An invocation starts in [`Role::Starting`], races for the exclusive session
//! lock, and becomes the one [`Role::Owner`] or a [`Role::Client`].  The Owner
//! keeps a [`SharedDisplayState`]: the label shown by the display loop and a
//! lifetime counter that starts at one pending duration cycle, is bumped by
//! each accepted refresh (saturating at two), and is decremented once per
//! elapsed duration cycle by the supervisor; the session ends when it reaches
//! zero.

use crate::decode::decode_refresh_payload;
use crate::MAX_REFRESH_BYTES;
use vstd::prelude::*;
use vstd::slice::slice_to_vec;
use vstd::utf8::{decode_utf8, encode_utf8, valid_utf8};

verus! {

/// Result of the non-blocking attempt to claim the exclusive session lock.
#[derive(Debug, Clone, Copy, PartialEq, Eq, Structural)]
pub enum LockOutcome {
    /// The claim succeeded: this invocation is the Owner.
    Acquired,
    /// Another live process holds the claim: this invocation is a Client.
    Contended,
    /// The lock resource could not even be opened or created.
    Unavailable,
}

/// The failures of the coordination core.  Contention is not among them: it
/// is the expected signal that another Owner is live.
#[derive(Debug, Clone, Copy, PartialEq, Eq, Structural)]
pub enum CoordError {
    /// The lock resource cannot be opened or created at all.  Fatal: no
    /// session or display may be created.
    LockUnavailable,
    /// A Client could not connect to the rendezvous path: the Owner exited
    /// between the lock race and the connection attempt.
    OwnerUnreachable,
    /// A refresh payload is not valid UTF-8 or exceeds the size bound.
    /// Recoverable: the connection is dropped, the listener stays alive.
    DecodeFailure,
    /// The Owner cannot bind the rendezvous endpoint.  Fatal to Owner
    /// startup only.
    BindFailure,
}

/// The states of the role-dispatch state machine.
#[derive(Debug, Clone, Copy, PartialEq, Eq, Structural)]
pub enum Role {
    /// Before the lock race is decided.
    Starting,
    /// Holds the exclusive claim and drives the overlay for the rest of the
    /// process's life.
    Owner,
    /// Lost the race; forwards its label and exits.
    Client,
    /// Terminal state.
    Exited,
}

/// The role a lock outcome decides: the winner owns the session, a contended
/// claim makes a Client, and an unopenable lock aborts the invocation.
pub open spec fn role_for(outcome: LockOutcome) -> Role {
    match outcome {
        LockOutcome::Acquired => Role::Owner,
        LockOutcome::Contended => Role::Client,
        LockOutcome::Unavailable => Role::Exited,
    }
}

/// The roles decided by a sequence of lock outcomes, one per invocation.
pub open spec fn roles_for(outcomes: Seq<LockOutcome>) -> Seq<Role> {
    outcomes.map(|i: int, o: LockOutcome| role_for(o))
}

impl Role {
    /// Decide the role from the lock race.  An unopenable lock resource is
    /// fatal and distinct from contention.
    pub fn on_lock(self, outcome: LockOutcome) -> (r: Result<Role, CoordError>)
        requires
            self is Starting,
        ensures
            r matches Ok(n) ==> n == role_for(outcome) && !(outcome is Unavailable),
            r matches Err(e) ==> e is LockUnavailable && outcome is Unavailable,
    {
        match outcome {
            LockOutcome::Acquired => Ok(Role::Owner),
            LockOutcome::Contended => Ok(Role::Client),
            LockOutcome::Unavailable => Err(CoordError::LockUnavailable),
        }
    }

    /// Record whether the Owner managed to bind the rendezvous endpoint; a
    /// failure there is fatal to Owner startup.
    pub fn on_bind(self, bound: bool) -> (r: Result<Role, CoordError>)
        requires
            self is Owner,
        ensures
            bound ==> (r matches Ok(n) && n is Owner),
            !bound ==> (r matches Err(e) && e is BindFailure),
    {
        if bound {
            Ok(Role::Owner)
        } else {
            Err(CoordError::BindFailure)
        }
    }

    /// A Client exits right after its one send, delivered or not; an
    /// unreachable Owner is reported, never retried.
    pub fn on_send(self, delivered: bool) -> (r: (Role, Option<CoordError>))
        requires
            self is Client,
        ensures
            r.0 is Exited,
            delivered ==> r.1 is None,
            !delivered ==> (r.1 matches Some(e) && e is OwnerUnreachable),
    {
        if delivered {
            (Role::Exited, None)
        } else {
            (Role::Exited, Some(CoordError::OwnerUnreachable))
        }
    }

    /// The supervisor's expiry action: the only transition out of Owner.
    pub fn on_expiry(self) -> (r: Role)
        requires
            self is Owner,
        ensures
            r is Exited,
    {
        Role::Exited
    }
}

/// Law: among invocations launched concurrently, if the exclusive lock is
/// granted to exactly one of them -- the operating system's guarantee for an
/// advisory lock -- then exactly one reaches the Owner role and every other
/// becomes a Client.
pub proof fn lemma_single_owner(outcomes: Seq<LockOutcome>, w: int)
    requires
        0 <= w < outcomes.len(),
        outcomes[w] is Acquired,
        forall|j: int| 0 <= j < outcomes.len() && j != w ==> outcomes[j] is Contended,
    ensures
        roles_for(outcomes)[w] is Owner,
        forall|j: int|
            0 <= j < outcomes.len() && j != w ==> #[trigger] roles_for(outcomes)[j] is Client,
        forall|j: int|
            0 <= j < outcomes.len() && #[trigger] roles_for(outcomes)[j] is Owner ==> j == w,
{
}

/// The lifetime counter after one accepted refresh: bumped by one, but
/// saturating at two, so that a burst of refreshes never extends the session
/// by more than one full duration cycle past the last decrement.
pub open spec fn bumped(count: nat) -> nat {
    if count >= 2 {
        2
    } else {
        count + 1
    }
}

/// Whether the Owner accepts a refresh payload: it must fit the wire bound
/// and decode as UTF-8.
pub open spec fn refresh_accepted(payload: Seq<u8>) -> bool {
    payload.len() <= MAX_REFRESH_BYTES && valid_utf8(payload)
}

/// Ghost image of the shared display state: the label characters and the
/// count of pending duration cycles.
pub ghost struct DisplayView {
    pub label: Seq<char>,
    pub count: nat,
}

/// What one incoming refresh does to the display state: an accepted payload
/// replaces the label with its decoded text and bumps the counter; a
/// rejected one changes nothing.
pub open spec fn spec_refresh(v: DisplayView, payload: Seq<u8>) -> DisplayView {
    if refresh_accepted(payload) {
        DisplayView { label: decode_utf8(payload), count: bumped(v.count) }
    } else {
        v
    }
}

/// The label text and lifetime counter of the live session, shared between
/// the refresh listener, the lifetime supervisor and the display loop.  The
/// mutual-exclusion wrapping around it belongs to the process glue; the
/// state transitions are decided and verified here.
pub struct SharedDisplayState {
    label: String,
    count: u8,
}

impl View for SharedDisplayState {
    type V = DisplayView;

    closed spec fn view(&self) -> DisplayView {
        DisplayView { label: self.label@, count: self.count as nat }
    }
}

impl SharedDisplayState {
    /// The counter never exceeds its saturation point.
    pub open spec fn wf(self) -> bool {
        self@.count <= 2
    }

    /// A fresh session shows the owning invocation's own label and has one
    /// pending duration cycle.
    pub fn new(label: String) -> (r: Self)
        ensures
            r@.label == label@,
            r@.count == 1,
            r.wf(),
    {
        SharedDisplayState { label, count: 1 }
    }

    /// Handle one refresh payload, as read from a Client's connection.  An
    /// accepted payload replaces the label byte-identically and extends the
    /// lifetime; anything oversized or not valid UTF-8 is rejected with no
    /// effect on the state, so a malformed message can never take the
    /// session down.
    pub fn apply_refresh(&mut self, payload: &[u8]) -> (r: Result<(), CoordError>)
        requires
            old(self).wf(),
        ensures
            final(self).wf(),
            final(self)@ == spec_refresh(old(self)@, payload@),
            r is Ok <==> refresh_accepted(payload@),
            r matches Err(e) ==> e is DecodeFailure,
    {
        if payload.len() > MAX_REFRESH_BYTES {
            return Err(CoordError::DecodeFailure);
        }
        match decode_refresh_payload(slice_to_vec(payload)) {
            Some(text) => {
                self.label = text;
                self.count = if self.count >= 2 {
                    2
                } else {
                    self.count + 1
                };
                Ok(())
            },
            None => Err(CoordError::DecodeFailure),
        }
    }

    /// The supervisor's decrement, applied once per elapsed duration cycle
    /// while the counter is still positive.  It never touches the label.
    pub fn tick(&mut self)
        requires
            old(self)@.count > 0,
        ensures
            final(self)@.count == old(self)@.count - 1,
            final(self)@.label == old(self)@.label,
            old(self).wf() ==> final(self).wf(),
    {
        self.count = self.count - 1;
    }

    /// Whether the session's lifetime has run out; the supervisor then
    /// terminates the process.
    pub fn expired(&self) -> (r: bool)
        ensures
            r <==> self@.count == 0,
    {
        self.count == 0
    }

    /// The number of pending duration cycles.
    pub fn count(&self) -> (r: u8)
        ensures
            r as nat == self@.count,
    {
        self.count
    }

    /// A whole snapshot of the current label, for the display loop to poll;
    /// never a partial read.
    pub fn snapshot_label(&self) -> (r: String)
        ensures
            r@ == self@.label,
    {
        self.label.clone()
    }
}

/// Law: an accepted refresh is stored byte-identically: encoding the label
/// the Owner now shows gives back exactly the bytes the Client sent.
pub proof fn lemma_refresh_byte_identical(v: DisplayView, payload: Seq<u8>)
    requires
        refresh_accepted(payload),
    ensures
        encode_utf8(spec_refresh(v, payload).label) == payload,
{
    broadcast use vstd::utf8::decode_utf8_encode_utf8;

}

/// Law: a rejected payload is isolated: it leaves the state unchanged, and a
/// later payload is handled exactly as it would have been had the rejected
/// one never arrived.
pub proof fn lemma_rejected_refresh_isolated(v: DisplayView, bad: Seq<u8>, later: Seq<u8>)
    requires
        !refresh_accepted(bad),
    ensures
        spec_refresh(v, bad) == v,
        spec_refresh(spec_refresh(v, bad), later) == spec_refresh(v, later),
{
}

/// Law: the counter saturates.  From a fresh session (one pending cycle), a
/// first accepted refresh leaves two pending cycles, and any further
/// accepted refresh still leaves two.
pub proof fn lemma_counter_saturates(v: DisplayView, first: Seq<u8>, again: Seq<u8>)
    requires
        v.count == 1,
        refresh_accepted(first),
        refresh_accepted(again),
    ensures
        spec_refresh(v, first).count == 2,
        spec_refresh(spec_refresh(v, first), again).count == 2,
{
}

/// The counter after the supervisor has slept through `cycles` duration
/// cycles with no refresh in between, decrementing once per cycle while the
/// counter is positive.
pub open spec fn count_after_cycles(count: nat, cycles: nat) -> nat
    decreases cycles,
{
    if cycles == 0 {
        count
    } else if count == 0 {
        0
    } else {
        count_after_cycles((count - 1) as nat, (cycles - 1) as nat)
    }
}

/// Law: because the counter saturates, a well-formed session closes within
/// two duration cycles once refreshes stop, however many refreshes arrived
/// before that.
pub proof fn lemma_bounded_extension(v: DisplayView)
    requires
        v.count <= 2,
    ensures
        count_after_cycles(v.count, 2) == 0,
{
    lemma_expiry_after_count_cycles(v.count, 2);
}

/// Law: absent refreshes, the session expires after exactly as many duration
/// cycles as the counter holds -- no earlier and no later.
pub proof fn lemma_expiry_after_count_cycles(count: nat, cycles: nat)
    ensures
        cycles < count ==> count_after_cycles(count, cycles) > 0,
        cycles >= count ==> count_after_cycles(count, cycles) == 0,
    decreases cycles,
{
    if cycles > 0 && count > 0 {
        lemma_expiry_after_count_cycles((count - 1) as nat, (cycles - 1) as nat);
    }
}

} // verus!
