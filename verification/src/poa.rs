//! The proof-of-authority validator-membership state machine.
//!
//! It keeps the candidate validator set for the next session, bounded by a
//! configured maximum. Oversized incoming sets are truncated
//! deterministically — never rejected — and the truncation is reported
//! through an event, keeping the chain available rather than strict.

use vstd::prelude::*;

use crate::AccountId;

verus! {

/// Events recorded by the membership state machine.
#[derive(Clone, Copy, Debug, PartialEq, Eq, Structural)]
pub enum PoaEvent {
    /// The stored validator set now has this many members.
    ValidatorsUpdated(u32),
    /// An incoming set exceeded the bound: the configured maximum, and
    /// the size of the set that was attempted.
    ValidatorsMaxOverflow(u32, u32),
}

/// The validator-membership state machine.
pub struct Poa {
    /// Upper bound on the stored validator set; fixed at deployment.
    pub max_validators: u32,
    /// The candidate validator set for the next session, in the order the
    /// session-rotation collaborator supplied it.
    pub members: Vec<AccountId>,
    /// Events recorded by membership updates, oldest first.
    pub events: Vec<PoaEvent>,
}

/// Copy the first `n` elements of `v` into a fresh vector.
fn copy_prefix(v: &Vec<AccountId>, n: usize) -> (r: Vec<AccountId>)
    requires
        n <= v@.len(),
    ensures
        r@ == v@.take(n as int),
{
    let mut r: Vec<AccountId> = Vec::new();
    let mut i: usize = 0;
    while i < n
        invariant
            i <= n <= v@.len(),
            r@ == v@.take(i as int),
        decreases n - i,
    {
        r.push(v[i]);
        proof {
            assert(v@.take(i + 1 as int) =~= v@.take(i as int).push(v@[i as int]));
        }
        i = i + 1;
    }
    r
}

impl Poa {
    /// Well-formedness: the stored set never exceeds the bound.
    pub open spec fn wf(self) -> bool {
        self.members@.len() <= self.max_validators
    }

    /// The stored set after accepting `incoming`: truncated to the bound
    /// when oversized, kept whole otherwise.
    pub open spec fn members_after(self, incoming: Seq<AccountId>) -> Seq<AccountId> {
        if incoming.len() > self.max_validators {
            incoming.take(self.max_validators as int)
        } else {
            incoming
        }
    }

    /// The event log after accepting `incoming`: first the overflow
    /// report when the set was oversized, then — always, and last — the
    /// count actually stored.
    pub open spec fn events_after(self, incoming: Seq<AccountId>) -> Seq<PoaEvent> {
        if incoming.len() > self.max_validators {
            self.events@.push(
                PoaEvent::ValidatorsMaxOverflow(self.max_validators, incoming.len() as u32),
            ).push(PoaEvent::ValidatorsUpdated(self.max_validators))
        } else {
            self.events@.push(PoaEvent::ValidatorsUpdated(incoming.len() as u32))
        }
    }

    /// Create the state machine with the given bound and no members.
    pub fn new(max_validators: u32) -> (r: Poa)
        ensures
            r.wf(),
            r.max_validators == max_validators,
            r.members@ == Seq::<AccountId>::empty(),
            r.events@ == Seq::<PoaEvent>::empty(),
    {
        Poa { max_validators, members: Vec::new(), events: Vec::new() }
    }

    /// Reconfigure the bound, as a deployment with a different
    /// configuration would; the stored set must already fit.
    pub fn set_max_validators(&mut self, max_validators: u32)
        requires
            old(self).members@.len() <= max_validators,
        ensures
            final(self).wf(),
            *final(self) == (Poa { max_validators, ..*old(self) }),
    {
        self.max_validators = max_validators;
    }

    /// Store `incoming` as the candidate set, truncating at the bound.
    fn store(&mut self, incoming: &Vec<AccountId>)
        requires
            incoming@.len() <= u32::MAX,
        ensures
            final(self).wf(),
            final(self).max_validators == old(self).max_validators,
            final(self).members@ == old(self).members_after(incoming@),
            final(self).events@ == old(self).events_after(incoming@),
    {
        let n = incoming.len();
        let max_usize = self.max_validators as usize;
        if n > max_usize {
            self.events.push(
                PoaEvent::ValidatorsMaxOverflow(self.max_validators, n as u32),
            );
            self.members = copy_prefix(incoming, max_usize);
            self.events.push(PoaEvent::ValidatorsUpdated(self.max_validators));
        } else {
            self.members = copy_prefix(incoming, n);
            proof {
                assert(incoming@.take(n as int) =~= incoming@);
            }
            self.events.push(PoaEvent::ValidatorsUpdated(n as u32));
        }
    }

    /// Install the genesis validator set, truncating at the bound and
    /// reporting as every later update does.
    pub fn initialize_members(&mut self, initial: &Vec<AccountId>)
        requires
            initial@.len() <= u32::MAX,
        ensures
            final(self).wf(),
            final(self).max_validators == old(self).max_validators,
            final(self).members@ == old(self).members_after(initial@),
            final(self).events@ == old(self).events_after(initial@),
    {
        self.store(initial);
    }

    /// Accept the externally computed candidate set for the next session.
    ///
    /// `removed` and `added` mirror the session manager's callback shape
    /// but are not validated against the full set, which is
    /// authoritative; the full set arrives already sorted and is not
    /// re-sorted here.
    pub fn change_members_sorted(
        &mut self,
        removed: &Vec<AccountId>,
        added: &Vec<AccountId>,
        new_full_set_sorted: &Vec<AccountId>,
    )
        requires
            new_full_set_sorted@.len() <= u32::MAX,
        ensures
            final(self).wf(),
            final(self).max_validators == old(self).max_validators,
            final(self).members@ == old(self).members_after(new_full_set_sorted@),
            final(self).events@ == old(self).events_after(new_full_set_sorted@),
    {
        let _ = removed;
        let _ = added;
        self.store(new_full_set_sorted);
    }

    /// The candidate set for the upcoming session: the stored members
    /// when there are any, else nothing, which the session manager reads
    /// as "no change".
    pub fn new_session(&self, session_index: u32) -> (r: Option<Vec<AccountId>>)
        ensures
            match r {
                Some(v) => self.members@.len() > 0 && v@ == self.members@,
                None => self.members@.len() == 0,
            },
    {
        let _ = session_index;
        if self.members.len() == 0 {
            None
        } else {
            let copy = copy_prefix(&self.members, self.members.len());
            proof {
                assert(self.members@.take(self.members@.len() as int) =~= self.members@);
            }
            Some(copy)
        }
    }
}

/// A session handler that ignores every notification and never asks for
/// a session to end. It stands in for the full session machinery when a
/// harness drives the membership state machine directly.
pub struct TestSessionHandler;

impl TestSessionHandler {
    /// Notification of a new session with its validator sets; ignored.
    pub fn on_new_session(
        changed: bool,
        validators: &Vec<AccountId>,
        queued_validators: &Vec<AccountId>,
    ) {
        let _ = changed;
        let _ = validators;
        let _ = queued_validators;
    }

    /// Notification that a validator was disabled; ignored.
    pub fn on_disabled(validator_index: u32) {
        let _ = validator_index;
    }

    /// Notification of the genesis session's validators; ignored.
    pub fn on_genesis_session(validators: &Vec<AccountId>) {
        let _ = validators;
    }

    /// This handler never ends a session on its own.
    pub fn should_end_session(now: u64) -> (r: bool)
        ensures
            r == false,
    {
        let _ = now;
        false
    }
}

/// Validator bound: in every well-formed state the stored validator set
/// has at most `max_validators` members.
pub proof fn lemma_validator_bound(p: Poa)
    requires
        p.wf(),
    ensures
        p.members@.len() <= p.max_validators,
{
}

} // verus!
