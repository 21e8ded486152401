//! A lock-and-mint bridge with Base: deposits on Base are claimed here by
//! the relayer with its Ed25519 proof and minted less a fee; withdrawals
//! burn here and queue a release on Base, less a fee.
use vstd::prelude::*;
use crate::bytes::{append_bytes, le_bytes, le_bytes_of};
use crate::hashing::{sha256, sha256_of};
use crate::keymap::KeyMap;
use crate::math::sat_sub;
use crate::signatures::{ed25519_check, ed25519_key_valid, ed25519_verifies, Ed25519Check};

verus! {

/// A withdrawal waiting to be released on Base.
#[derive(Clone, Debug)]
pub struct PendingWithdrawal {
    pub id: u64,
    pub sender: [u8; 32],
    pub base_recipient: [u8; 32],
    /// The amount to release, after the fee.
    pub amount: u64,
    pub timestamp: u64,
    pub processed: bool,
}

/// The state of the bridge.
#[derive(Clone, Debug)]
pub struct BaseBridgeState {
    pub owner: [u8; 32],
    /// The relayer, whose address is also its Ed25519 public key.
    pub relayer: [u8; 32],
    pub usdc_token: [u8; 32],
    pub next_withdrawal_id: u64,
    pub pending_withdrawals: KeyMap<u64, PendingWithdrawal>,
    /// The Base transaction hashes of the deposits claimed.
    pub processed_deposits: KeyMap<[u8; 32], bool>,
    pub total_locked: u64,
    pub total_minted: u64,
    pub paused: bool,
    pub min_amount: u64,
    pub max_amount: u64,
    pub fee_bps: u64,
    pub collected_fees: u64,
}

/// The message the relayer signs the digest of for a deposit: the Base
/// transaction hash, the amount's eight little-endian bytes, the recipient.
pub open spec fn deposit_message(base_tx_hash: Seq<u8>, amount: u64, recipient: Seq<u8>) -> Seq<u8> {
    base_tx_hash + le_bytes(amount as nat, 8) + recipient
}

/// The fee on `amount` at `bps` basis points.
pub open spec fn fee_on(amount: u64, bps: u64) -> int {
    (amount as int * bps as int) / 10_000
}

/// The number of withdrawals not yet released among a run of entries.
pub open spec fn unprocessed_count(s: Seq<(u64, PendingWithdrawal)>) -> int
    decreases s.len(),
{
    if s.len() == 0 {
        0
    } else {
        unprocessed_count(s.drop_last()) + if s.last().1.processed {
            0int
        } else {
            1int
        }
    }
}

impl BaseBridgeState {
    pub open spec fn wf(&self) -> bool {
        self.pending_withdrawals.wf() && self.processed_deposits.wf()
    }

    /// Whether a claim of `amount` for the Base transaction `base_tx_hash`
    /// may go ahead: the bridge runs, the relayer claims, the amount is within
    /// the limits and fits with its fee, and the deposit was not claimed.
    pub open spec fn claim_open(&self, caller: [u8; 32], base_tx_hash: [u8; 32], amount: u64) -> bool {
        &&& !self.paused
        &&& caller == self.relayer
        &&& self.min_amount <= amount <= self.max_amount
        &&& !self.processed_deposits@.contains_key(base_tx_hash@)
        &&& amount as int * self.fee_bps as int <= u64::MAX
        &&& fee_on(amount, self.fee_bps) <= amount
        &&& self.total_locked + amount <= u64::MAX
        &&& self.total_minted + (amount - fee_on(amount, self.fee_bps)) <= u64::MAX
        &&& self.collected_fees + fee_on(amount, self.fee_bps) <= u64::MAX
    }

    /// A bridge with a 0.1% fee and limits of 0.001 to 1,000,000 USDC.
    pub fn new(owner: [u8; 32], relayer: [u8; 32], usdc_token: [u8; 32]) -> (s: Self)
        ensures
            s.wf(),
            s.owner == owner,
            s.relayer == relayer,
            s.usdc_token == usdc_token,
            s.next_withdrawal_id == 1,
            s.pending_withdrawals@ == Map::<u64, PendingWithdrawal>::empty(),
            s.processed_deposits@ == Map::<Seq<u8>, bool>::empty(),
            s.total_locked == 0,
            s.total_minted == 0,
            !s.paused,
            s.min_amount == 1_000,
            s.max_amount == 1_000_000_000_000,
            s.fee_bps == 10,
            s.collected_fees == 0,
    {
        BaseBridgeState {
            owner,
            relayer,
            usdc_token,
            next_withdrawal_id: 1,
            pending_withdrawals: KeyMap::new(),
            processed_deposits: KeyMap::new(),
            total_locked: 0,
            total_minted: 0,
            paused: false,
            min_amount: 1_000,
            max_amount: 1_000_000_000_000,
            fee_bps: 10,
            collected_fees: 0,
        }
    }

    /// Replaces the relayer; the owner only.
    pub fn set_relayer(&mut self, caller: [u8; 32], new_relayer: [u8; 32])
        requires
            caller == old(self).owner,
        ensures
            *final(self) == (BaseBridgeState { relayer: new_relayer, ..*old(self) }),
    {
        self.relayer = new_relayer;
    }

    /// Sets the fee, at most 5%; the owner only.
    pub fn set_fee(&mut self, caller: [u8; 32], fee_bps: u64)
        requires
            caller == old(self).owner,
            fee_bps <= 500,
        ensures
            *final(self) == (BaseBridgeState { fee_bps, ..*old(self) }),
    {
        self.fee_bps = fee_bps;
    }

    /// Sets the smallest and largest amount, the first below the second; the owner only.
    pub fn set_limits(&mut self, caller: [u8; 32], min_amount: u64, max_amount: u64)
        requires
            caller == old(self).owner,
            min_amount < max_amount,
        ensures
            *final(self) == (BaseBridgeState { min_amount, max_amount, ..*old(self) }),
    {
        self.min_amount = min_amount;
        self.max_amount = max_amount;
    }

    pub fn pause(&mut self, caller: [u8; 32])
        requires
            caller == old(self).owner,
        ensures
            *final(self) == (BaseBridgeState { paused: true, ..*old(self) }),
    {
        self.paused = true;
    }

    pub fn unpause(&mut self, caller: [u8; 32])
        requires
            caller == old(self).owner,
        ensures
            *final(self) == (BaseBridgeState { paused: false, ..*old(self) }),
    {
        self.paused = false;
    }

    /// Pays out the collected fees; the owner only.
    pub fn withdraw_fees(&mut self, caller: [u8; 32]) -> (r: u64)
        requires
            caller == old(self).owner,
        ensures
            r == old(self).collected_fees,
            *final(self) == (BaseBridgeState { collected_fees: 0, ..*old(self) }),
    {
        let fees = self.collected_fees;
        self.collected_fees = 0;
        fees
    }

    /// The digest the relayer signs for a deposit.
    pub fn deposit_hash(base_tx_hash: &[u8; 32], amount: u64, recipient: &[u8; 32]) -> (r: [u8; 32])
        ensures
            r@ == sha256_of(deposit_message(base_tx_hash@, amount, recipient@)),
    {
        let mut input: Vec<u8> = Vec::new();
        append_bytes(&mut input, base_tx_hash.as_slice());
        let le = le_bytes_of(amount);
        append_bytes(&mut input, le.as_slice());
        append_bytes(&mut input, recipient.as_slice());
        sha256(input.as_slice())
    }

    /// Mints a deposit made on Base, on the relayer's proof: records it as
    /// claimed, locks the amount, mints it less the fee and keeps the fee.
    /// Returns the amount minted.
    pub fn claim(&mut self, caller: [u8; 32], base_tx_hash: [u8; 32], amount: u64, recipient: [u8; 32], proof: [u8; 64]) -> (r:
        u64)
        requires
            old(self).wf(),
            old(self).claim_open(caller, base_tx_hash, amount),
            ed25519_key_valid(old(self).relayer@),
            ed25519_verifies(
                old(self).relayer@,
                sha256_of(deposit_message(base_tx_hash@, amount, recipient@)),
                proof@,
            ),
        ensures
            final(self).wf(),
            r == amount - fee_on(amount, old(self).fee_bps),
            final(self).processed_deposits@ == old(self).processed_deposits@.insert(base_tx_hash@, true),
            final(self).total_locked == old(self).total_locked + amount,
            final(self).total_minted == old(self).total_minted + r,
            final(self).collected_fees == old(self).collected_fees + fee_on(amount, old(self).fee_bps),
            *final(self) == (BaseBridgeState {
                processed_deposits: final(self).processed_deposits,
                total_locked: final(self).total_locked,
                total_minted: final(self).total_minted,
                collected_fees: final(self).collected_fees,
                ..*old(self)
            }),
    {
        let fee = (amount * self.fee_bps) / 10_000;
        let mint_amount = amount - fee;
        self.processed_deposits.insert(base_tx_hash, true);
        self.total_locked = self.total_locked + amount;
        self.total_minted = self.total_minted + mint_amount;
        self.collected_fees = self.collected_fees + fee;
        mint_amount
    }

    /// Mints a deposit as `claim` does where the relayer's key and proof
    /// check out; otherwise says which failed, changing nothing.
    pub fn try_claim(&mut self, caller: [u8; 32], base_tx_hash: [u8; 32], amount: u64, recipient: [u8; 32], proof: [u8; 64]) -> (r:
        Result<u64, Ed25519Check>)
        requires
            old(self).wf(),
            old(self).claim_open(caller, base_tx_hash, amount),
        ensures
            final(self).wf(),
            ({
                let pk = old(self).relayer@;
                let h = sha256_of(deposit_message(base_tx_hash@, amount, recipient@));
                &&& (r == Err::<u64, Ed25519Check>(Ed25519Check::InvalidKey)) <==> !ed25519_key_valid(pk)
                &&& r is Ok <==> ed25519_key_valid(pk) && ed25519_verifies(pk, h, proof@)
                &&& r != Err::<u64, Ed25519Check>(Ed25519Check::Valid)
                &&& r is Ok ==> r == Ok::<u64, Ed25519Check>((amount - fee_on(amount, old(self).fee_bps)) as u64)
                    && final(self).processed_deposits@ == old(self).processed_deposits@.insert(
                    base_tx_hash@,
                    true,
                ) && final(self).total_locked == old(self).total_locked + amount
                    && final(self).total_minted == old(self).total_minted + (amount - fee_on(
                    amount,
                    old(self).fee_bps,
                )) && final(self).collected_fees == old(self).collected_fees + fee_on(
                    amount,
                    old(self).fee_bps,
                )
                &&& r is Err ==> *final(self) == *old(self)
            }),
    {
        let message_hash = Self::deposit_hash(&base_tx_hash, amount, &recipient);
        match ed25519_check(&self.relayer, &message_hash, &proof) {
            Ed25519Check::Valid => Ok(self.claim(caller, base_tx_hash, amount, recipient, proof)),
            failure => Err(failure),
        }
    }

    /// Burns `amount` here and queues its release on Base, less the fee,
    /// which the bridge keeps. Returns the withdrawal's id.
    pub fn withdraw(&mut self, caller: [u8; 32], amount: u64, base_recipient: [u8; 32], timestamp: u64) -> (r: u64)
        requires
            old(self).wf(),
            !old(self).paused,
            old(self).min_amount <= amount <= old(self).max_amount,
            amount as int * old(self).fee_bps as int <= u64::MAX,
            fee_on(amount, old(self).fee_bps) <= amount,
            old(self).next_withdrawal_id < u64::MAX,
            old(self).collected_fees + fee_on(amount, old(self).fee_bps) <= u64::MAX,
        ensures
            final(self).wf(),
            r == old(self).next_withdrawal_id,
            final(self).next_withdrawal_id == r + 1,
            final(self).pending_withdrawals@ == old(self).pending_withdrawals@.insert(
                r,
                PendingWithdrawal {
                    id: r,
                    sender: caller,
                    base_recipient,
                    amount: (amount - fee_on(amount, old(self).fee_bps)) as u64,
                    timestamp,
                    processed: false,
                },
            ),
            final(self).total_minted == sat_sub(old(self).total_minted, amount),
            final(self).collected_fees == old(self).collected_fees + fee_on(amount, old(self).fee_bps),
            *final(self) == (BaseBridgeState {
                next_withdrawal_id: final(self).next_withdrawal_id,
                pending_withdrawals: final(self).pending_withdrawals,
                total_minted: final(self).total_minted,
                collected_fees: final(self).collected_fees,
                ..*old(self)
            }),
    {
        let fee = (amount * self.fee_bps) / 10_000;
        let release_amount = amount - fee;
        let id = self.next_withdrawal_id;
        self.next_withdrawal_id = self.next_withdrawal_id + 1;
        self.pending_withdrawals.insert(
            id,
            PendingWithdrawal {
                id,
                sender: caller,
                base_recipient,
                amount: release_amount,
                timestamp,
                processed: false,
            },
        );
        self.total_minted = self.total_minted.saturating_sub(amount);
        self.collected_fees = self.collected_fees + fee;
        id
    }

    /// Marks a queued withdrawal as released on Base and unlocks its
    /// amount; the relayer only.
    pub fn mark_withdrawal_processed(&mut self, caller: [u8; 32], withdrawal_id: u64)
        requires
            old(self).wf(),
            caller == old(self).relayer,
            old(self).pending_withdrawals@.contains_key(withdrawal_id),
            !old(self).pending_withdrawals@[withdrawal_id].processed,
        ensures
            final(self).wf(),
            final(self).pending_withdrawals@ == old(self).pending_withdrawals@.insert(
                withdrawal_id,
                PendingWithdrawal { processed: true, ..old(self).pending_withdrawals@[withdrawal_id] },
            ),
            final(self).total_locked == sat_sub(
                old(self).total_locked,
                old(self).pending_withdrawals@[withdrawal_id].amount,
            ),
            *final(self) == (BaseBridgeState {
                pending_withdrawals: final(self).pending_withdrawals,
                total_locked: final(self).total_locked,
                ..*old(self)
            }),
    {
        let i = match self.pending_withdrawals.find(&withdrawal_id) {
            Some(i) => i,
            None => {
                assert(false);
                return ;
            },
        };
        let ghost before = self.pending_withdrawals;
        proof {
            before.lemma_entry(i as int);
        }
        let amount = {
            let w = self.pending_withdrawals.value_mut_at(i);
            w.processed = true;
            w.amount
        };
        proof {
            KeyMap::lemma_set_at(before, self.pending_withdrawals, i as int);
        }
        self.total_locked = self.total_locked.saturating_sub(amount);
    }

    /// The withdrawal with id `id`.
    pub fn get_withdrawal(&self, id: u64) -> (r: Option<&PendingWithdrawal>)
        requires
            self.wf(),
        ensures
            match r {
                Some(w) => self.pending_withdrawals@.contains_key(id) && *w == self.pending_withdrawals@[id],
                None => !self.pending_withdrawals@.contains_key(id),
            },
    {
        self.pending_withdrawals.get(&id)
    }

    /// The number of withdrawals not yet released.
    pub fn pending_withdrawal_count(&self) -> (r: usize)
        requires
            self.wf(),
        ensures
            r == unprocessed_count(self.pending_withdrawals.entries()),
    {
        let n = self.pending_withdrawals.len();
        let ghost es = self.pending_withdrawals.entries();
        let mut count: usize = 0;
        let mut i: usize = 0;
        while i < n
            invariant
                i <= n,
                n == es.len(),
                es == self.pending_withdrawals.entries(),
                count == unprocessed_count(es.take(i as int)),
                count <= i,
            decreases n - i,
        {
            proof {
                assert(es.take(i + 1).drop_last() =~= es.take(i as int));
                assert(es.take(i + 1).last() == es[i as int]);
            }
            if !self.pending_withdrawals.value_at(i).processed {
                count = count + 1;
            }
            i += 1;
        }
        proof {
            assert(es.take(n as int) =~= es);
        }
        count
    }

    /// Whether the deposit of Base transaction `base_tx_hash` was claimed.
    pub fn is_deposit_processed(&self, base_tx_hash: &[u8; 32]) -> (r: bool)
        requires
            self.wf(),
        ensures
            r == self.processed_deposits.get_or(base_tx_hash@, false),
    {
        self.processed_deposits.get_or_false(base_tx_hash)
    }
}

/// A claim mints exactly what was deposited less the fee that the bridge
/// keeps: minted amount and fee add up to the deposit.
pub proof fn law_claim_splits_amount(amount: u64, fee_bps: u64)
    requires
        fee_on(amount, fee_bps) <= amount,
    ensures
        (amount - fee_on(amount, fee_bps)) + fee_on(amount, fee_bps) == amount,
        fee_bps <= 10_000 ==> fee_on(amount, fee_bps) <= amount,
{
    if fee_bps <= 10_000 {
        crate::math::lemma_mul_div_le(amount as int, fee_bps as int, 10_000);
    }
}

/// A deposit is minted once: once it is recorded as claimed, as `claim`
/// records it, no claim of it is open again, for any caller and amount.
pub proof fn law_deposit_claimed_once(
    before: BaseBridgeState,
    after: BaseBridgeState,
    base_tx_hash: [u8; 32],
    caller: [u8; 32],
    amount: u64,
)
    requires
        after.processed_deposits@ == before.processed_deposits@.insert(base_tx_hash@, true),
    ensures
        !after.claim_open(caller, base_tx_hash, amount),
{
}

} // verus!
