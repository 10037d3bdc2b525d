//! The token-allocation state machine.
//!
//! One state-changing operation, `allocate`, is gated by an oracle
//! membership set and an emergency-shutdown flag. A successful allocation
//! splits the amount into a protocol fee and a net grant, credits two
//! accounts through the currency ledger, and counts the whole amount
//! against a hard, monotonic supply ceiling.

use vstd::prelude::*;

use vstd::arithmetic::div_mod::{
    lemma_div_is_ordered, lemma_div_multiples_vanish_fancy, lemma_div_pos_is_pos,
    lemma_fundamental_div_mod, lemma_hoist_over_denominator,
};
use vstd::arithmetic::mul::lemma_mul_inequality;

use crate::ledger::Ledger;
use crate::ordered_set::OrderedSet;
use crate::{AccountId, Balance};

verus! {

/// Protocol-fee ratios are expressed in parts per billion of the amount.
pub const FEE_ACCURACY: u32 = 1_000_000_000;

/// Why an `allocate` call was rejected. Each kind is distinct and is never
/// coerced into another; the failed call leaves all state untouched.
#[derive(Clone, Copy, Debug, PartialEq, Eq, Structural)]
pub enum AllocationError {
    /// The emergency-shutdown flag is active; checked before anything else.
    UnderShutdown,
    /// The caller is not an oracle, or the requested amount is zero.
    OracleAccessDenied,
    /// Granting the amount would breach the global supply ceiling.
    TooManyCoinsToAllocate,
    /// The net grant or the fee would leave a fresh account below the
    /// existential deposit.
    DoesNotSatisfyExistentialDeposit,
}

/// Whether the caller is charged a transaction fee for the call. Oracle
/// allocations are exempt so that operating an oracle costs nothing.
#[derive(Clone, Copy, Debug, PartialEq, Eq, Structural)]
pub enum Pays {
    Yes,
    No,
}

/// Event recorded for every successful allocation:
/// grantee, net grant, protocol fee, and the oracle's proof bytes.
#[derive(Clone, Debug, PartialEq, Eq)]
pub enum AllocationEvent {
    NewAllocation(AccountId, Balance, Balance, Vec<u8>),
}

/// The protocol fee taken out of `amount` at ratio `parts` per billion,
/// rounded to the nearest unit with ties rounding up.
pub open spec fn fee_for(amount: Balance, parts: u32) -> int {
    (amount * parts + 500_000_000) / 1_000_000_000
}

/// What remains of `amount` for the grantee once the fee is taken.
pub open spec fn net_for(amount: Balance, parts: u32) -> int {
    amount - fee_for(amount, parts)
}

/// Fee split exactness: for every amount and every fee ratio of at most
/// one billion parts per billion, the fee is within the amount, and fee
/// and net grant recombine exactly to the amount.
pub proof fn lemma_fee_split(amount: Balance, parts: u32)
    requires
        parts <= FEE_ACCURACY,
    ensures
        0 <= fee_for(amount, parts) <= amount,
        fee_for(amount, parts) + net_for(amount, parts) == amount,
{
    let a = amount as int;
    let p = parts as int;
    assert(0 <= a * p) by (nonlinear_arith)
        requires 0 <= a && 0 <= p,
    ;
    lemma_div_pos_is_pos(a * p + 500_000_000, 1_000_000_000);
    lemma_mul_inequality(p, 1_000_000_000, a);
    assert(p * a == a * p) by (nonlinear_arith);
    assert(1_000_000_000 * a == a * 1_000_000_000) by (nonlinear_arith);
    lemma_div_is_ordered(a * p + 500_000_000, a * 1_000_000_000 + 500_000_000, 1_000_000_000);
    lemma_div_multiples_vanish_fancy(a, 500_000_000, 1_000_000_000);
}

/// Compute the protocol fee for `amount` at `parts` per billion.
pub fn compute_fee(amount: Balance, parts: u32) -> (r: Balance)
    requires
        parts <= FEE_ACCURACY,
    ensures
        r == fee_for(amount, parts),
        r <= amount,
{
    proof {
        lemma_fee_split(amount, parts);
        lemma_fundamental_div_mod(amount as int, 1_000_000_000);
    }
    let q: u128 = amount / 1_000_000_000;
    let rem: u128 = amount % 1_000_000_000;
    let p: u128 = parts as u128;
    proof {
        let a = amount as int;
        let qq = a / 1_000_000_000;
        let rr = a % 1_000_000_000;
        let pp = parts as int;
        assert(qq * pp <= a) by (nonlinear_arith)
            requires
                a == 1_000_000_000 * qq + rr,
                0 <= rr,
                0 <= qq,
                0 <= pp <= 1_000_000_000,
        ;
        assert(rr * pp + 500_000_000 < 0x1_0000_0000_0000_0000) by (nonlinear_arith)
            requires
                0 <= rr < 1_000_000_000,
                0 <= pp <= 1_000_000_000,
        ;
        assert(a * pp + 500_000_000 == (rr * pp + 500_000_000) + (qq * pp) * 1_000_000_000)
            by (nonlinear_arith)
            requires
                a == 1_000_000_000 * qq + rr,
        ;
        lemma_hoist_over_denominator(rr * pp + 500_000_000, qq * pp, 1_000_000_000nat);
        lemma_div_pos_is_pos(rr * pp + 500_000_000, 1_000_000_000);
    }
    let high: u128 = q * p;
    let low: u128 = (rem * p + 500_000_000) / 1_000_000_000;
    high + low
}

/// The allocation state machine: configuration fixed at deployment, the
/// running supply counter, and the injected collaborator state (oracle
/// membership and the emergency-shutdown flag).
#[derive(Clone)]
pub struct Allocations {
    /// Protocol fee ratio in parts per billion; at most `FEE_ACCURACY`.
    pub protocol_fee: u32,
    /// Account credited with the protocol fee of every allocation.
    pub protocol_fee_receiver: AccountId,
    /// Hard ceiling on the total amount ever allocated.
    pub coins_limit: Balance,
    /// Total amount ever allocated, fees included; monotonic.
    pub coins_consumed: Balance,
    /// Accounts allowed to trigger allocations; owned by an external
    /// membership manager and only read here.
    pub oracles: OrderedSet,
    /// Emergency-shutdown flag, toggled by an external collaborator.
    pub shutdown: bool,
    /// Events recorded by successful allocations, oldest first.
    pub events: Vec<AllocationEvent>,
    /// History of the amounts of all successful allocations, oldest first.
    pub allocated: Ghost<Seq<Balance>>,
}

/// The sum of all amounts in `s`.
pub open spec fn sum_amounts(s: Seq<Balance>) -> int
    decreases s.len(),
{
    if s.len() == 0 {
        0
    } else {
        sum_amounts(s.drop_last()) + s.last()
    }
}

impl Allocations {
    /// Well-formedness: the fee ratio is a valid per-billion ratio, the
    /// supply counter accounts exactly for the allocation history and
    /// never exceeds the ceiling, and the oracle set is sorted.
    pub open spec fn wf(self) -> bool {
        &&& self.protocol_fee <= FEE_ACCURACY
        &&& self.coins_consumed <= self.coins_limit
        &&& self.coins_consumed == sum_amounts(self.allocated@)
        &&& self.oracles.wf()
    }

    /// Whether `who` may trigger allocations.
    pub open spec fn is_oracle_spec(self, who: AccountId) -> bool {
        self.oracles.0@.contains(who)
    }

    /// Whether both credits of an allocation of `amount` pass the
    /// existential-deposit rule: each credited amount reaches the deposit
    /// floor, unless the target account already holds at least the floor.
    pub open spec fn deposit_ok(self, ledger: Ledger, grantee: AccountId, amount: Balance) -> bool {
        let fee = fee_for(amount, self.protocol_fee);
        let net = net_for(amount, self.protocol_fee);
        &&& (net >= ledger.existential_deposit
            || ledger.balance_of(grantee) >= ledger.existential_deposit)
        &&& (fee >= ledger.existential_deposit
            || ledger.balance_of(self.protocol_fee_receiver) >= ledger.existential_deposit)
    }

    /// The exact outcome of `allocate` from a given pre-state, with the
    /// checks in their mandatory order: shutdown first, then the combined
    /// zero-amount-or-non-oracle check, then the supply ceiling, then the
    /// existential-deposit rule.
    pub open spec fn allocate_outcome(
        self,
        ledger: Ledger,
        origin: AccountId,
        grantee: AccountId,
        amount: Balance,
    ) -> Result<Pays, AllocationError> {
        if self.shutdown {
            Err(AllocationError::UnderShutdown)
        } else if amount == 0 || !self.is_oracle_spec(origin) {
            Err(AllocationError::OracleAccessDenied)
        } else if self.coins_consumed + amount > self.coins_limit {
            Err(AllocationError::TooManyCoinsToAllocate)
        } else if !self.deposit_ok(ledger, grantee, amount) {
            Err(AllocationError::DoesNotSatisfyExistentialDeposit)
        } else {
            Ok(Pays::No)
        }
    }

    /// Create the state machine with the given configuration and initial
    /// oracle membership; nothing is allocated yet and shutdown is off.
    pub fn new(
        protocol_fee: u32,
        protocol_fee_receiver: AccountId,
        coins_limit: Balance,
        oracles: Vec<AccountId>,
    ) -> (r: Allocations)
        requires
            protocol_fee <= FEE_ACCURACY,
        ensures
            r.wf(),
            r.protocol_fee == protocol_fee,
            r.protocol_fee_receiver == protocol_fee_receiver,
            r.coins_limit == coins_limit,
            r.coins_consumed == 0,
            r.shutdown == false,
            r.events@ == Seq::<AllocationEvent>::empty(),
            r.allocated@ == Seq::<Balance>::empty(),
            forall|a: AccountId| r.is_oracle_spec(a) <==> oracles@.contains(a),
    {
        Allocations {
            protocol_fee,
            protocol_fee_receiver,
            coins_limit,
            coins_consumed: 0,
            oracles: OrderedSet::from(oracles),
            shutdown: false,
            events: Vec::new(),
            allocated: Ghost(Seq::empty()),
        }
    }

    /// Replace the oracle membership set, as the external membership
    /// manager does on initialization and on every membership change.
    pub fn set_oracles(&mut self, members: Vec<AccountId>)
        requires
            old(self).wf(),
        ensures
            final(self).wf(),
            forall|a: AccountId| final(self).is_oracle_spec(a) <==> members@.contains(a),
            final(self).protocol_fee == old(self).protocol_fee,
            final(self).protocol_fee_receiver == old(self).protocol_fee_receiver,
            final(self).coins_limit == old(self).coins_limit,
            final(self).coins_consumed == old(self).coins_consumed,
            final(self).shutdown == old(self).shutdown,
            final(self).events@ == old(self).events@,
            final(self).allocated@ == old(self).allocated@,
    {
        self.oracles = OrderedSet::from(members);
    }

    /// Set the emergency-shutdown flag, as the external shutdown
    /// collaborator does when it is toggled.
    pub fn set_shutdown(&mut self, active: bool)
        ensures
            *final(self) == (Allocations { shutdown: active, ..*old(self) }),
    {
        self.shutdown = active;
    }

    /// Whether `who` is a member of the oracle set.
    pub fn is_oracle(&self, who: AccountId) -> (r: bool)
        requires
            self.wf(),
        ensures
            r == self.is_oracle_spec(who),
    {
        self.oracles.contains(&who).is_some()
    }

    /// Total amount ever allocated, fees included.
    pub fn coins_consumed(&self) -> (r: Balance)
        ensures
            r == self.coins_consumed,
    {
        self.coins_consumed
    }

    /// Allocate `amount` to `grantee` on behalf of oracle `origin`.
    ///
    /// On success the amount is split into a protocol fee and a net
    /// grant, the two accounts are credited, the supply counter grows by
    /// the whole amount, a `NewAllocation` event is recorded, and the
    /// oracle is exempted from transaction fees. On failure nothing
    /// changes, and the error tells exactly which check failed first.
    pub fn allocate(
        &mut self,
        ledger: &mut Ledger,
        origin: AccountId,
        grantee: AccountId,
        amount: Balance,
        proof_bytes: Vec<u8>,
    ) -> (r: Result<Pays, AllocationError>)
        requires
            old(self).wf(),
            old(ledger).wf(),
            old(ledger).balance_of(grantee) + amount <= Balance::MAX,
            old(ledger).balance_of(old(self).protocol_fee_receiver) + amount <= Balance::MAX,
        ensures
            final(self).wf(),
            final(ledger).wf(),
            r == old(self).allocate_outcome(*old(ledger), origin, grantee, amount),
            r is Err ==> *final(self) == *old(self) && *final(ledger) == *old(ledger),
            r is Ok ==> {
                &&& final(self).coins_consumed == old(self).coins_consumed + amount
                &&& final(self).allocated@ == old(self).allocated@.push(amount)
                &&& final(self).events@ == old(self).events@.push(
                    AllocationEvent::NewAllocation(
                        grantee,
                        net_for(amount, old(self).protocol_fee) as Balance,
                        fee_for(amount, old(self).protocol_fee) as Balance,
                        proof_bytes,
                    ),
                )
                &&& final(self).protocol_fee == old(self).protocol_fee
                &&& final(self).protocol_fee_receiver == old(self).protocol_fee_receiver
                &&& final(self).coins_limit == old(self).coins_limit
                &&& final(self).oracles == old(self).oracles
                &&& final(self).shutdown == old(self).shutdown
                &&& final(ledger).existential_deposit == old(ledger).existential_deposit
                &&& forall|a: AccountId|
                    final(ledger).balance_of(a) == old(ledger).balance_of(a) + (
                        if a == grantee { net_for(amount, old(self).protocol_fee) } else { 0int }
                    ) + (
                        if a == old(self).protocol_fee_receiver {
                            fee_for(amount, old(self).protocol_fee)
                        } else {
                            0int
                        }
                    )
            },
    {
        if self.shutdown {
            return Err(AllocationError::UnderShutdown);
        }
        let oracle_ok = self.is_oracle(origin);
        if amount == 0 || !oracle_ok {
            return Err(AllocationError::OracleAccessDenied);
        }
        if amount > self.coins_limit - self.coins_consumed {
            return Err(AllocationError::TooManyCoinsToAllocate);
        }
        proof {
            lemma_fee_split(amount, self.protocol_fee);
        }
        let fee = compute_fee(amount, self.protocol_fee);
        let net = amount - fee;
        let ed = ledger.existential_deposit;
        let grantee_viable = net >= ed || ledger.free_balance(grantee) >= ed;
        let fee_viable = fee >= ed || ledger.free_balance(self.protocol_fee_receiver) >= ed;
        if !(grantee_viable && fee_viable) {
            return Err(AllocationError::DoesNotSatisfyExistentialDeposit);
        }
        ledger.credit(grantee, net);
        ledger.credit(self.protocol_fee_receiver, fee);
        self.coins_consumed = self.coins_consumed + amount;
        self.events.push(
            AllocationEvent::NewAllocation(grantee, net, fee, proof_bytes),
        );
        proof {
            let pre = self.allocated@;
            assert(pre.push(amount).drop_last() =~= pre);
        }
        self.allocated = Ghost(self.allocated@.push(amount));
        Ok(Pays::No)
    }
}

/// Shutdown precedence: while the shutdown flag is active, the outcome
/// of `allocate` is `UnderShutdown`, whatever the amount, the caller's
/// membership, or the ledger state.
pub proof fn lemma_shutdown_precedence(
    a: Allocations,
    ledger: Ledger,
    origin: AccountId,
    grantee: AccountId,
    amount: Balance,
)
    requires
        a.shutdown,
    ensures
        a.allocate_outcome(ledger, origin, grantee, amount) == Err::<Pays, AllocationError>(
            AllocationError::UnderShutdown,
        ),
{
}

/// Supply ceiling: in every well-formed state, the amounts of all
/// successful allocations sum exactly to `coins_consumed`, which never
/// exceeds the configured maximum.
pub proof fn lemma_supply_ceiling(a: Allocations)
    requires
        a.wf(),
    ensures
        sum_amounts(a.allocated@) == a.coins_consumed,
        a.coins_consumed <= a.coins_limit,
{
}

} // verus!
