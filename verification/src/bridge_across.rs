//! Across spoke pool: deposits that relayers fill on the destination chain,
//! with a slow path settled by Merkle proofs published by the hub pool.
use vstd::prelude::*;
use crate::keymap::{KeyMap, MapKey};

verus! {

pub const CHAIN_ID_ETHEREUM: u64 = 1;
pub const CHAIN_ID_BASE: u64 = 8453;
pub const CHAIN_ID_ARBITRUM: u64 = 42161;
pub const CHAIN_ID_OPTIMISM: u64 = 10;
pub const CHAIN_ID_DINA: u64 = 99999;

/// A deposit waiting to be filled on its destination chain.
#[derive(Clone, Debug)]
pub struct Deposit {
    pub depositor: [u8; 32],
    pub destination_chain_id: u64,
    pub recipient: [u8; 32],
    pub input_token: [u8; 32],
    pub output_token: [u8; 32],
    pub input_amount: u64,
    pub output_amount: u64,
    pub relayer_fee_pct: u64,
    pub quote_timestamp: u64,
    pub fill_deadline: u64,
    pub exclusivity_deadline: u64,
    pub message: Vec<u8>,
    pub filled: bool,
    pub origin_chain_id: u64,
}

/// A relayer's (or the slow path's) fill of a deposit.
#[derive(Clone, Copy, Debug)]
pub struct Fill {
    pub relayer: [u8; 32],
    pub origin_chain_id: u64,
    pub deposit_nonce: u64,
    pub amount: u64,
    pub repayment_chain_id: u64,
    pub fill_timestamp: u64,
}

/// The data of a deposit settled through the slow path.
#[derive(Clone, Debug)]
pub struct RelayData {
    pub depositor: [u8; 32],
    pub recipient: [u8; 32],
    pub input_token: [u8; 32],
    pub output_token: [u8; 32],
    pub input_amount: u64,
    pub output_amount: u64,
    pub origin_chain_id: u64,
    pub deposit_nonce: u64,
    pub fill_deadline: u64,
    pub message: Vec<u8>,
}

/// A proof that a relay leaf belongs to a published root.
#[derive(Clone, Debug)]
pub struct MerkleProof {
    pub proof: Vec<[u8; 32]>,
    pub leaf_index: u64,
    pub root: [u8; 32],
}

/// The state of the spoke pool.
#[derive(Clone, Debug)]
pub struct AcrossSpokePoolState {
    pub owner: [u8; 32],
    pub spoke_pool_address: [u8; 32],
    pub hub_pool_chain_id: u64,
    pub chain_id: u64,
    pub deposit_nonce: u64,
    pub deposits: KeyMap<u64, Deposit>,
    pub fills: KeyMap<(u64, u64), Fill>,
    pub merkle_roots: Vec<[u8; 32]>,
    pub whitelisted_relayers: KeyMap<[u8; 32], bool>,
    pub pool_balances: KeyMap<[u8; 32], u64>,
    pub paused: bool,
    pub supported_chains: Vec<u64>,
}

/// 32 zero bytes.
pub open spec fn zero_hash() -> Seq<u8> {
    Seq::new(32, |i: int| 0u8)
}

/// The leaf hash of serialized relay data: byte `i` is folded by XOR into position `i % 32`.
pub open spec fn xor_fold(bytes: Seq<u8>) -> Seq<u8>
    decreases bytes.len(),
{
    if bytes.len() == 0 {
        zero_hash()
    } else {
        let h = xor_fold(bytes.drop_last());
        let j = (bytes.len() - 1) % 32;
        h.update(j, h[j] ^ bytes.last())
    }
}

/// The byte-wise XOR of two 32-byte sequences.
pub open spec fn xor_bytes(a: Seq<u8>, b: Seq<u8>) -> Seq<u8> {
    Seq::new(32, |i: int| a[i] ^ b[i])
}

/// The value reached by folding the proof's siblings into the leaf by XOR.
pub open spec fn xor_chain(leaf: Seq<u8>, proof: Seq<[u8; 32]>) -> Seq<u8>
    decreases proof.len(),
{
    if proof.len() == 0 {
        leaf
    } else {
        xor_bytes(xor_chain(leaf, proof.drop_last()), proof.last()@)
    }
}

/// Whether `v` holds `x`.
pub fn u64_in(v: &Vec<u64>, x: u64) -> (r: bool)
    ensures
        r == v@.contains(x),
{
    let mut i: usize = 0;
    while i < v.len()
        invariant
            i <= v@.len(),
            forall|j: int| 0 <= j < i ==> v@[j] != x,
        decreases v@.len() - i,
    {
        if v[i] == x {
            return true;
        }
        i += 1;
    }
    false
}

impl AcrossSpokePoolState {
    pub open spec fn wf(&self) -> bool {
        &&& self.deposits.wf()
        &&& self.fills.wf()
        &&& self.whitelisted_relayers.wf()
        &&& self.pool_balances.wf()
    }

    /// The balance the pool holds of `token`.
    pub open spec fn pool_balance(&self, token: [u8; 32]) -> u64 {
        self.pool_balances.get_or(token@, 0)
    }

    /// A pool owned by `owner` on Dina, with the hub on Ethereum and five supported chains.
    pub fn new(owner: [u8; 32]) -> (s: Self)
        ensures
            s.wf(),
            s.owner == owner,
            s.spoke_pool_address@ == zero_hash(),
            s.hub_pool_chain_id == CHAIN_ID_ETHEREUM,
            s.chain_id == CHAIN_ID_DINA,
            s.deposit_nonce == 0,
            s.deposits@ == Map::<u64, Deposit>::empty(),
            s.fills@ == Map::<(u64, u64), Fill>::empty(),
            s.merkle_roots@.len() == 0,
            s.whitelisted_relayers@ == Map::<Seq<u8>, bool>::empty(),
            s.pool_balances@ == Map::<Seq<u8>, u64>::empty(),
            !s.paused,
            s.supported_chains@ == seq![
                CHAIN_ID_ETHEREUM,
                CHAIN_ID_BASE,
                CHAIN_ID_ARBITRUM,
                CHAIN_ID_OPTIMISM,
                CHAIN_ID_DINA,
            ],
    {
        let supported_chains = vec![
            CHAIN_ID_ETHEREUM,
            CHAIN_ID_BASE,
            CHAIN_ID_ARBITRUM,
            CHAIN_ID_OPTIMISM,
            CHAIN_ID_DINA,
        ];
        let zero = [0u8; 32];
        assert(zero@ =~= zero_hash());
        AcrossSpokePoolState {
            owner,
            spoke_pool_address: zero,
            hub_pool_chain_id: CHAIN_ID_ETHEREUM,
            chain_id: CHAIN_ID_DINA,
            deposit_nonce: 0,
            deposits: KeyMap::new(),
            fills: KeyMap::new(),
            merkle_roots: Vec::new(),
            whitelisted_relayers: KeyMap::new(),
            pool_balances: KeyMap::new(),
            paused: false,
            supported_chains,
        }
    }

    pub fn current_nonce(&self) -> (r: u64)
        ensures
            r == self.deposit_nonce,
    {
        self.deposit_nonce
    }

    /// The deposit with nonce `nonce`, if any.
    pub fn get_deposit(&self, nonce: u64) -> (r: Option<&Deposit>)
        requires
            self.wf(),
        ensures
            match r {
                Some(d) => self.deposits@.contains_key(nonce) && *d == self.deposits@[nonce],
                None => !self.deposits@.contains_key(nonce),
            },
    {
        self.deposits.get(&nonce)
    }

    /// The fill of deposit `deposit_nonce` from `origin_chain_id`, if any.
    pub fn get_fill(&self, origin_chain_id: u64, deposit_nonce: u64) -> (r: Option<&Fill>)
        requires
            self.wf(),
        ensures
            match r {
                Some(f) => self.fills@.contains_key((origin_chain_id, deposit_nonce)) && *f
                    == self.fills@[(origin_chain_id, deposit_nonce)],
                None => !self.fills@.contains_key((origin_chain_id, deposit_nonce)),
            },
    {
        self.fills.get(&(origin_chain_id, deposit_nonce))
    }

    pub fn is_chain_supported(&self, chain_id: u64) -> (r: bool)
        ensures
            r == self.supported_chains@.contains(chain_id),
    {
        u64_in(&self.supported_chains, chain_id)
    }

    /// Locks `input_amount` of `input_token` in the pool and records a deposit
    /// for relayers to fill; returns its nonce.
    pub fn deposit(
        &mut self,
        caller: [u8; 32],
        destination_chain_id: u64,
        recipient: [u8; 32],
        input_token: [u8; 32],
        output_token: [u8; 32],
        input_amount: u64,
        output_amount: u64,
        relayer_fee_pct: u64,
        quote_timestamp: u64,
        fill_deadline: u64,
        exclusivity_deadline: u64,
        message: Vec<u8>,
    ) -> (nonce: u64)
        requires
            old(self).wf(),
            !old(self).paused,
            input_amount > 0,
            output_amount <= input_amount,
            old(self).supported_chains@.contains(destination_chain_id),
            relayer_fee_pct <= 10_000,
            old(self).deposit_nonce < u64::MAX,
            old(self).pool_balance(input_token) + input_amount <= u64::MAX,
        ensures
            final(self).wf(),
            nonce == old(self).deposit_nonce,
            final(self).deposit_nonce == old(self).deposit_nonce + 1,
            final(self).deposits@ == old(self).deposits@.insert(
                nonce,
                Deposit {
                    depositor: caller,
                    destination_chain_id,
                    recipient,
                    input_token,
                    output_token,
                    input_amount,
                    output_amount,
                    relayer_fee_pct,
                    quote_timestamp,
                    fill_deadline,
                    exclusivity_deadline,
                    message,
                    filled: false,
                    origin_chain_id: old(self).chain_id,
                },
            ),
            final(self).pool_balances@ == old(self).pool_balances@.insert(
                input_token@,
                (old(self).pool_balance(input_token) + input_amount) as u64,
            ),
            *final(self) == (AcrossSpokePoolState {
                deposit_nonce: final(self).deposit_nonce,
                deposits: final(self).deposits,
                pool_balances: final(self).pool_balances,
                ..*old(self)
            }),
    {
        let nonce = self.deposit_nonce;
        self.deposit_nonce = self.deposit_nonce + 1;
        let deposit = Deposit {
            depositor: caller,
            destination_chain_id,
            recipient,
            input_token,
            output_token,
            input_amount,
            output_amount,
            relayer_fee_pct,
            quote_timestamp,
            fill_deadline,
            exclusivity_deadline,
            message,
            filled: false,
            origin_chain_id: self.chain_id,
        };
        let pool_balance = self.pool_balances.get_or_zero(&input_token);
        self.pool_balances.insert(input_token, pool_balance + input_amount);
        self.deposits.insert(nonce, deposit);
        nonce
    }

    /// A relayer fills deposit `deposit_nonce` from `origin_chain_id` with
    /// `output_amount` of `output_token`; a deposit is filled once.
    pub fn fill_relay(
        &mut self,
        caller: [u8; 32],
        depositor: [u8; 32],
        recipient: [u8; 32],
        input_token: [u8; 32],
        output_token: [u8; 32],
        input_amount: u64,
        output_amount: u64,
        repayment_chain_id: u64,
        origin_chain_id: u64,
        deposit_nonce: u64,
        fill_deadline: u64,
        message: Vec<u8>,
    )
        requires
            old(self).wf(),
            !old(self).paused,
            !old(self).fills@.contains_key((origin_chain_id, deposit_nonce)),
            old(self).pool_balance(output_token) + output_amount <= u64::MAX,
        ensures
            final(self).wf(),
            final(self).fills@ == old(self).fills@.insert(
                (origin_chain_id, deposit_nonce),
                Fill {
                    relayer: caller,
                    origin_chain_id,
                    deposit_nonce,
                    amount: output_amount,
                    repayment_chain_id,
                    fill_timestamp: 0,
                },
            ),
            final(self).pool_balances@ == old(self).pool_balances@.insert(
                output_token@,
                (old(self).pool_balance(output_token) + output_amount) as u64,
            ),
            *final(self) == (AcrossSpokePoolState {
                fills: final(self).fills,
                pool_balances: final(self).pool_balances,
                ..*old(self)
            }),
    {
        let fill = Fill {
            relayer: caller,
            origin_chain_id,
            deposit_nonce,
            amount: output_amount,
            repayment_chain_id,
            fill_timestamp: 0,
        };
        let relayer_balance = self.pool_balances.get_or_zero(&output_token);
        self.pool_balances.insert(output_token, relayer_balance + output_amount);
        self.fills.insert((origin_chain_id, deposit_nonce), fill);
    }

    /// Settles a deposit through the slow path: `relay_data_json` is the
    /// serialized `relay_data`, whose XOR-folded hash must lead through the
    /// proof to a published root.
    pub fn execute_slow_relay_leaf(
        &mut self,
        relay_data: RelayData,
        proof: MerkleProof,
        relay_data_json: &[u8],
    )
        requires
            old(self).wf(),
            !old(self).paused,
            !old(self).fills@.contains_key((relay_data.origin_chain_id, relay_data.deposit_nonce)),
            old(self).merkle_roots@.contains(proof.root),
            xor_chain(xor_fold(relay_data_json@), proof.proof@) == proof.root@,
        ensures
            final(self).wf(),
            ({
                let key = (relay_data.origin_chain_id, relay_data.deposit_nonce);
                let f = final(self).fills@[key];
                &&& final(self).fills@ == old(self).fills@.insert(key, f)
                &&& f.relayer@ == zero_hash()
                &&& f.origin_chain_id == relay_data.origin_chain_id
                &&& f.deposit_nonce == relay_data.deposit_nonce
                &&& f.amount == relay_data.output_amount
                &&& f.repayment_chain_id == 0
                &&& f.fill_timestamp == 0
            }),
            *final(self) == (AcrossSpokePoolState { fills: final(self).fills, ..*old(self) }),
    {
        let fill = Fill {
            relayer: [0u8; 32],
            origin_chain_id: relay_data.origin_chain_id,
            deposit_nonce: relay_data.deposit_nonce,
            amount: relay_data.output_amount,
            repayment_chain_id: 0,
            fill_timestamp: 0,
        };
        self.fills.insert((relay_data.origin_chain_id, relay_data.deposit_nonce), fill);
        assert(fill.relayer@ =~= zero_hash());
    }

    /// Whether `relay_data_json` settles through `proof` to a published root.
    pub fn slow_relay_valid(&self, proof: &MerkleProof, relay_data_json: &[u8]) -> (r: bool)
        ensures
            r == (self.merkle_roots@.contains(proof.root)
                && xor_chain(xor_fold(relay_data_json@), proof.proof@) == proof.root@),
    {
        let known = crate::addr::addr_in(&self.merkle_roots, &proof.root);
        if !known {
            return false;
        }
        let leaf_hash = Self::compute_relay_leaf_hash(relay_data_json);
        Self::verify_merkle_proof(&leaf_hash, proof)
    }

    /// The owner publishes a Merkle root of the hub pool.
    pub fn publish_merkle_root(&mut self, caller: [u8; 32], root: [u8; 32])
        requires
            caller == old(self).owner,
        ensures
            final(self).merkle_roots@ == old(self).merkle_roots@.push(root),
            *final(self) == (AcrossSpokePoolState { merkle_roots: final(self).merkle_roots, ..*old(self) }),
    {
        self.merkle_roots.push(root);
    }

    /// The owner whitelists a relayer.
    pub fn whitelist_relayer(&mut self, caller: [u8; 32], relayer: [u8; 32])
        requires
            old(self).wf(),
            caller == old(self).owner,
        ensures
            final(self).wf(),
            final(self).whitelisted_relayers@ == old(self).whitelisted_relayers@.insert(relayer@, true),
            *final(self) == (AcrossSpokePoolState {
                whitelisted_relayers: final(self).whitelisted_relayers,
                ..*old(self)
            }),
    {
        self.whitelisted_relayers.insert(relayer, true);
    }

    /// The owner removes a relayer from the whitelist.
    pub fn remove_relayer(&mut self, caller: [u8; 32], relayer: [u8; 32])
        requires
            old(self).wf(),
            caller == old(self).owner,
        ensures
            final(self).wf(),
            final(self).whitelisted_relayers@ == old(self).whitelisted_relayers@.remove(relayer@),
            *final(self) == (AcrossSpokePoolState {
                whitelisted_relayers: final(self).whitelisted_relayers,
                ..*old(self)
            }),
    {
        self.whitelisted_relayers.remove(&relayer);
    }

    /// The owner adds a supported destination chain, once.
    pub fn add_supported_chain(&mut self, caller: [u8; 32], chain_id: u64)
        requires
            caller == old(self).owner,
        ensures
            old(self).supported_chains@.contains(chain_id) ==> final(self).supported_chains@
                == old(self).supported_chains@,
            !old(self).supported_chains@.contains(chain_id) ==> final(self).supported_chains@
                == old(self).supported_chains@.push(chain_id),
            *final(self) == (AcrossSpokePoolState { supported_chains: final(self).supported_chains, ..*old(self) }),
    {
        if !u64_in(&self.supported_chains, chain_id) {
            self.supported_chains.push(chain_id);
        }
    }

    pub fn pause(&mut self, caller: [u8; 32])
        requires
            caller == old(self).owner,
        ensures
            *final(self) == (AcrossSpokePoolState { paused: true, ..*old(self) }),
    {
        self.paused = true;
    }

    pub fn unpause(&mut self, caller: [u8; 32])
        requires
            caller == old(self).owner,
        ensures
            *final(self) == (AcrossSpokePoolState { paused: false, ..*old(self) }),
    {
        self.paused = false;
    }

    pub fn transfer_ownership(&mut self, caller: [u8; 32], new_owner: [u8; 32])
        requires
            caller == old(self).owner,
        ensures
            *final(self) == (AcrossSpokePoolState { owner: new_owner, ..*old(self) }),
    {
        self.owner = new_owner;
    }

    pub fn set_spoke_pool_address(&mut self, caller: [u8; 32], address: [u8; 32])
        requires
            caller == old(self).owner,
        ensures
            *final(self) == (AcrossSpokePoolState { spoke_pool_address: address, ..*old(self) }),
    {
        self.spoke_pool_address = address;
    }

    /// The leaf hash of serialized relay data.
    fn compute_relay_leaf_hash(serialized: &[u8]) -> (hash: [u8; 32])
        ensures
            hash@ == xor_fold(serialized@),
    {
        let mut hash = [0u8; 32];
        let mut i: usize = 0;
        assert(hash@ =~= xor_fold(serialized@.take(0)));
        while i < serialized.len()
            invariant
                i <= serialized@.len(),
                hash@ == xor_fold(serialized@.take(i as int)),
            decreases serialized@.len() - i,
        {
            let j = i % 32;
            let b = serialized[i];
            proof {
                assert(serialized@.take(i + 1).drop_last() =~= serialized@.take(i as int));
                lemma_xor_fold_len(serialized@.take(i as int));
            }
            hash[j] = hash[j] ^ b;
            assert(hash@ =~= xor_fold(serialized@.take(i + 1)));
            i += 1;
        }
        assert(serialized@.take(serialized@.len() as int) =~= serialized@);
        hash
    }

    /// Whether folding the proof's siblings into `leaf_hash` reaches the proof's root.
    fn verify_merkle_proof(leaf_hash: &[u8; 32], proof: &MerkleProof) -> (r: bool)
        ensures
            r == (xor_chain(leaf_hash@, proof.proof@) == proof.root@),
    {
        let mut current = *leaf_hash;
        let mut k: usize = 0;
        while k < proof.proof.len()
            invariant
                k <= proof.proof@.len(),
                current@ == xor_chain(leaf_hash@, proof.proof@.take(k as int)),
            decreases proof.proof@.len() - k,
        {
            let sibling = proof.proof[k];
            let mut combined = [0u8; 32];
            let mut i: usize = 0;
            while i < 32
                invariant
                    i <= 32,
                    forall|j: int| 0 <= j < i ==> combined@[j] == current@[j] ^ sibling@[j],
                decreases 32 - i,
            {
                combined[i] = current[i] ^ sibling[i];
                i += 1;
            }
            proof {
                assert(proof.proof@.take(k + 1).drop_last() =~= proof.proof@.take(k as int));
                assert(combined@ =~= xor_bytes(current@, sibling@));
            }
            current = combined;
            k += 1;
        }
        assert(proof.proof@.take(proof.proof@.len() as int) =~= proof.proof@);
        let equal = current.same_key(&proof.root);
        equal
    }
}

/// Folded hashes are 32 bytes long.
pub proof fn lemma_xor_fold_len(bytes: Seq<u8>)
    ensures
        xor_fold(bytes).len() == 32,
    decreases bytes.len(),
{
    if bytes.len() > 0 {
        lemma_xor_fold_len(bytes.drop_last());
    }
}

/// A deposit is filled once: once a fill of it is recorded, as `fill_relay`
/// records it, that fill is what `get_fill` finds, and `fill_relay` no
/// longer accepts the deposit.
pub proof fn law_deposit_filled_once(
    before: AcrossSpokePoolState,
    after: AcrossSpokePoolState,
    origin_chain_id: u64,
    deposit_nonce: u64,
    fill: Fill,
)
    requires
        after.fills@ == before.fills@.insert((origin_chain_id, deposit_nonce), fill),
    ensures
        after.fills@.contains_key((origin_chain_id, deposit_nonce)),
        after.fills@[(origin_chain_id, deposit_nonce)] == fill,
{
}

} // verus!
