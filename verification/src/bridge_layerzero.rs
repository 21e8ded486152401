//! A LayerZero omnichain token bridge: tokens sent out get a per-chain
//! nonce; messages come in only from trusted remotes and in nonce order, and
//! those out of order are kept for a retry.
use vstd::prelude::*;
use crate::addr::{addr_eq, zero_address};
use crate::keymap::KeyMap;
use crate::text::{decimal, push_decimal};

verus! {

/// LayerZero chain ids (endpoint v2).
pub const LZ_ETHEREUM: u16 = 30101;

pub const LZ_ARBITRUM: u16 = 30110;

pub const LZ_SOLANA: u16 = 30168;

pub const LZ_BASE: u16 = 30184;

pub const LZ_DINA: u16 = 30099;

/// Gas settings for the destination chain.
#[derive(Clone, Debug)]
pub struct AdapterParams {
    /// 1 for basic, 2 for an airdrop of native gas.
    pub version: u16,
    pub dst_gas_limit: u64,
    pub native_for_dst: u64,
    pub native_dst_address: [u8; 32],
}

impl Default for AdapterParams {
    fn default() -> (r: Self)
        ensures
            r.version == 1,
            r.dst_gas_limit == 200_000,
            r.native_for_dst == 0,
            r.native_dst_address@ == zero_address(),
    {
        let zero = [0u8; 32];
        assert(zero@ =~= zero_address());
        AdapterParams { version: 1, dst_gas_limit: 200_000, native_for_dst: 0, native_dst_address: zero }
    }
}

impl AdapterParams {
    /// A copy of the parameters.
    pub fn duplicate(&self) -> (r: Self)
        ensures
            r == *self,
    {
        AdapterParams {
            version: self.version,
            dst_gas_limit: self.dst_gas_limit,
            native_for_dst: self.native_for_dst,
            native_dst_address: self.native_dst_address,
        }
    }
}

/// An incoming message kept for a retry.
#[derive(Clone, Debug)]
pub struct FailedMessage {
    pub src_chain_id: u16,
    pub src_address: [u8; 32],
    pub nonce: u64,
    /// The message's payload, serialized.
    pub payload: Vec<u8>,
    pub reason: String,
}

/// An outgoing message.
#[derive(Clone, Debug)]
pub struct OutboundMessage {
    pub dst_chain_id: u16,
    pub dst_address: [u8; 32],
    pub sender: [u8; 32],
    pub amount: u64,
    pub nonce: u64,
}

/// What a token transfer message carries.
#[derive(Clone, Debug)]
pub struct OftPayload {
    pub to: [u8; 32],
    pub amount: u64,
    pub compose_msg: Option<Vec<u8>>,
}

/// The state of the bridge.
#[derive(Clone, Debug)]
pub struct LayerZeroState {
    pub owner: [u8; 32],
    pub local_chain_id: u16,
    pub lz_endpoint: [u8; 32],
    pub usdc_token: [u8; 32],
    /// The trusted remote contract by chain.
    pub trusted_remotes: KeyMap<u16, [u8; 32]>,
    /// The last nonce taken in by source chain and address.
    pub inbound_nonces: KeyMap<(u16, [u8; 32]), u64>,
    /// The last nonce sent by destination chain.
    pub outbound_nonces: KeyMap<u16, u64>,
    pub failed_messages: Vec<FailedMessage>,
    pub outbound_log: Vec<OutboundMessage>,
    pub default_adapter_params: KeyMap<u16, AdapterParams>,
    pub paused: bool,
    pub min_dst_gas: KeyMap<u16, u64>,
}

/// The reason recorded for a message that came out of order:
/// `nonce mismatch: expected `, the expected nonce, `, got `, the nonce.
pub open spec fn nonce_mismatch_text(expected: u64, got: u64) -> Seq<char> {
    "nonce mismatch: expected "@ + decimal(expected as nat) + ", got "@ + decimal(got as nat)
}

/// Writes the reason recorded for a message that came out of order.
fn nonce_mismatch_reason(expected: u64, got: u64) -> (r: String)
    ensures
        r@ == nonce_mismatch_text(expected, got),
{
    let mut reason = String::from_str("nonce mismatch: expected ");
    push_decimal(&mut reason, expected);
    reason.append(", got ");
    push_decimal(&mut reason, got);
    assert(reason@ =~= nonce_mismatch_text(expected, got));
    reason
}

/// Whether failed message `m` is the one from `chain` and `address` with `nonce`.
pub open spec fn is_message(m: FailedMessage, chain: u16, address: [u8; 32], nonce: u64) -> bool {
    m.src_chain_id == chain && m.src_address == address && m.nonce == nonce
}

impl LayerZeroState {
    pub open spec fn wf(&self) -> bool {
        &&& self.trusted_remotes.wf()
        &&& self.inbound_nonces.wf()
        &&& self.outbound_nonces.wf()
        &&& self.default_adapter_params.wf()
        &&& self.min_dst_gas.wf()
    }

    /// The gas limit a send to `chain` allows when given `given`: that of
    /// `given`, else of the chain's default settings, else of the general ones.
    pub open spec fn gas_limit_for(&self, chain: u16, given: Option<AdapterParams>) -> u64 {
        match given {
            Some(p) => p.dst_gas_limit,
            None => if self.default_adapter_params@.contains_key(chain) {
                self.default_adapter_params@[chain].dst_gas_limit
            } else {
                200_000
            },
        }
    }

    /// A bridge for this chain with no trusted remotes.
    pub fn new(owner: [u8; 32], lz_endpoint: [u8; 32], usdc_token: [u8; 32]) -> (s: Self)
        ensures
            s.wf(),
            s.owner == owner,
            s.local_chain_id == LZ_DINA,
            s.lz_endpoint == lz_endpoint,
            s.usdc_token == usdc_token,
            s.trusted_remotes@ == Map::<u16, [u8; 32]>::empty(),
            s.inbound_nonces@ == Map::<(u16, Seq<u8>), u64>::empty(),
            s.outbound_nonces@ == Map::<u16, u64>::empty(),
            s.failed_messages@ == Seq::<FailedMessage>::empty(),
            s.outbound_log@ == Seq::<OutboundMessage>::empty(),
            s.default_adapter_params@ == Map::<u16, AdapterParams>::empty(),
            !s.paused,
            s.min_dst_gas@ == Map::<u16, u64>::empty(),
    {
        LayerZeroState {
            owner,
            local_chain_id: LZ_DINA,
            lz_endpoint,
            usdc_token,
            trusted_remotes: KeyMap::new(),
            inbound_nonces: KeyMap::new(),
            outbound_nonces: KeyMap::new(),
            failed_messages: Vec::new(),
            outbound_log: Vec::new(),
            default_adapter_params: KeyMap::new(),
            paused: false,
            min_dst_gas: KeyMap::new(),
        }
    }

    /// Trusts `remote_address` as the bridge on another chain; the owner only.
    pub fn set_trusted_remote(&mut self, caller: [u8; 32], chain_id: u16, remote_address: [u8; 32])
        requires
            old(self).wf(),
            caller == old(self).owner,
            chain_id != old(self).local_chain_id,
        ensures
            final(self).wf(),
            final(self).trusted_remotes@ == old(self).trusted_remotes@.insert(chain_id, remote_address),
            *final(self) == (LayerZeroState { trusted_remotes: final(self).trusted_remotes, ..*old(self) }),
    {
        self.trusted_remotes.insert(chain_id, remote_address);
    }

    /// Sets the least gas a send to `chain_id` must allow; the owner only.
    pub fn set_min_dst_gas(&mut self, caller: [u8; 32], chain_id: u16, min_gas: u64)
        requires
            old(self).wf(),
            caller == old(self).owner,
        ensures
            final(self).wf(),
            final(self).min_dst_gas@ == old(self).min_dst_gas@.insert(chain_id, min_gas),
            *final(self) == (LayerZeroState { min_dst_gas: final(self).min_dst_gas, ..*old(self) }),
    {
        self.min_dst_gas.insert(chain_id, min_gas);
    }

    /// Sets the default gas settings for `chain_id`; the owner only.
    pub fn set_default_adapter_params(&mut self, caller: [u8; 32], chain_id: u16, params: AdapterParams)
        requires
            old(self).wf(),
            caller == old(self).owner,
        ensures
            final(self).wf(),
            final(self).default_adapter_params@ == old(self).default_adapter_params@.insert(chain_id, params),
            *final(self) == (LayerZeroState {
                default_adapter_params: final(self).default_adapter_params,
                ..*old(self)
            }),
    {
        self.default_adapter_params.insert(chain_id, params);
    }

    pub fn pause(&mut self, caller: [u8; 32])
        requires
            caller == old(self).owner,
        ensures
            *final(self) == (LayerZeroState { paused: true, ..*old(self) }),
    {
        self.paused = true;
    }

    pub fn unpause(&mut self, caller: [u8; 32])
        requires
            caller == old(self).owner,
        ensures
            *final(self) == (LayerZeroState { paused: false, ..*old(self) }),
    {
        self.paused = false;
    }

    /// Sends `amount` to `dst_address` on a trusted chain with enough gas
    /// allowed; returns the message's nonce, one more than the chain's last.
    pub fn send(
        &mut self,
        caller: [u8; 32],
        dst_chain_id: u16,
        dst_address: [u8; 32],
        amount: u64,
        adapter_params: Option<AdapterParams>,
    ) -> (r: u64)
        requires
            old(self).wf(),
            !old(self).paused,
            amount > 0,
            old(self).trusted_remotes@.contains_key(dst_chain_id),
            old(self).min_dst_gas@.contains_key(dst_chain_id) ==> old(self).gas_limit_for(
                dst_chain_id,
                adapter_params,
            ) >= old(self).min_dst_gas@[dst_chain_id],
            old(self).outbound_nonces.get_or(dst_chain_id, 0) < u64::MAX,
        ensures
            final(self).wf(),
            r == old(self).outbound_nonces.get_or(dst_chain_id, 0) + 1,
            final(self).outbound_nonces@ == old(self).outbound_nonces@.insert(dst_chain_id, r),
            final(self).outbound_log@ == old(self).outbound_log@.push(
                OutboundMessage { dst_chain_id, dst_address, sender: caller, amount, nonce: r },
            ),
            *final(self) == (LayerZeroState {
                outbound_nonces: final(self).outbound_nonces,
                outbound_log: final(self).outbound_log,
                ..*old(self)
            }),
    {
        let nonce = self.outbound_nonces.get_or_zero(&dst_chain_id) + 1;
        self.outbound_nonces.insert(dst_chain_id, nonce);
        self.outbound_log.push(OutboundMessage { dst_chain_id, dst_address, sender: caller, amount, nonce });
        nonce
    }

    /// Takes in a message from the endpoint, from a trusted remote. The next
    /// nonce of its path is accepted and returns the amount to mint; any
    /// other is kept, with `payload_bytes` (the payload serialized) and the
    /// reason, for a retry, and returns zero.
    pub fn lz_receive(
        &mut self,
        caller: [u8; 32],
        src_chain_id: u16,
        src_address: [u8; 32],
        nonce: u64,
        payload: OftPayload,
        payload_bytes: Vec<u8>,
    ) -> (r: u64)
        requires
            old(self).wf(),
            !old(self).paused,
            caller == old(self).lz_endpoint,
            old(self).trusted_remotes@.contains_key(src_chain_id),
            old(self).trusted_remotes@[src_chain_id] == src_address,
            old(self).inbound_nonces.get_or((src_chain_id, src_address@), 0) < u64::MAX,
        ensures
            final(self).wf(),
            ({
                let expected = old(self).inbound_nonces.get_or((src_chain_id, src_address@), 0) + 1;
                &&& nonce == expected ==> {
                    &&& r == payload.amount
                    &&& final(self).inbound_nonces@ == old(self).inbound_nonces@.insert(
                        (src_chain_id, src_address@),
                        nonce,
                    )
                    &&& *final(self) == (LayerZeroState {
                        inbound_nonces: final(self).inbound_nonces,
                        ..*old(self)
                    })
                }
                &&& nonce != expected ==> {
                    let m = final(self).failed_messages@.last();
                    &&& r == 0
                    &&& final(self).failed_messages@.len() == old(self).failed_messages@.len() + 1
                    &&& final(self).failed_messages@.drop_last() == old(self).failed_messages@
                    &&& m.src_chain_id == src_chain_id && m.src_address == src_address
                    &&& m.nonce == nonce && m.payload == payload_bytes
                    &&& m.reason@ == nonce_mismatch_text(expected as u64, nonce)
                    &&& *final(self) == (LayerZeroState {
                        failed_messages: final(self).failed_messages,
                        ..*old(self)
                    })
                }
            }),
    {
        let expected_nonce = self.inbound_nonces.get_or_zero(&(src_chain_id, src_address)) + 1;
        if nonce != expected_nonce {
            let reason = nonce_mismatch_reason(expected_nonce, nonce);
            self.failed_messages.push(
                FailedMessage { src_chain_id, src_address, nonce, payload: payload_bytes, reason },
            );
            proof {
                assert(self.failed_messages@.drop_last() =~= old(self).failed_messages@);
            }
            return 0;
        }
        self.inbound_nonces.insert((src_chain_id, src_address), nonce);
        payload.amount
    }

    /// Takes a kept message out for a retry, the first one from that source
    /// with that nonce, and records its nonce as the path's last; returns its
    /// serialized payload. The owner only.
    pub fn retry_message(&mut self, caller: [u8; 32], src_chain_id: u16, src_address: [u8; 32], nonce: u64) -> (r:
        Vec<u8>)
        requires
            old(self).wf(),
            caller == old(self).owner,
            exists|i: int|
                0 <= i < old(self).failed_messages@.len() && is_message(
                    #[trigger] old(self).failed_messages@[i],
                    src_chain_id,
                    src_address,
                    nonce,
                ),
        ensures
            final(self).wf(),
            exists|i: int|
                0 <= i < old(self).failed_messages@.len() && is_message(
                    #[trigger] old(self).failed_messages@[i],
                    src_chain_id,
                    src_address,
                    nonce,
                ) && (forall|j: int|
                    0 <= j < i ==> !is_message(
                        #[trigger] old(self).failed_messages@[j],
                        src_chain_id,
                        src_address,
                        nonce,
                    )) && final(self).failed_messages@ == old(self).failed_messages@.remove(i)
                    && r == old(self).failed_messages@[i].payload,
            final(self).inbound_nonces@ == old(self).inbound_nonces@.insert((src_chain_id, src_address@), nonce),
            *final(self) == (LayerZeroState {
                failed_messages: final(self).failed_messages,
                inbound_nonces: final(self).inbound_nonces,
                ..*old(self)
            }),
    {
        let mut idx: usize = 0;
        while idx < self.failed_messages.len()
            invariant
                idx <= self.failed_messages@.len(),
                self.failed_messages@ == old(self).failed_messages@,
                forall|j: int|
                    0 <= j < idx ==> !is_message(
                        #[trigger] self.failed_messages@[j],
                        src_chain_id,
                        src_address,
                        nonce,
                    ),
                exists|i: int|
                    idx <= i < self.failed_messages@.len() && is_message(
                        #[trigger] self.failed_messages@[i],
                        src_chain_id,
                        src_address,
                        nonce,
                    ),
            ensures
                idx < self.failed_messages@.len(),
                is_message(self.failed_messages@[idx as int], src_chain_id, src_address, nonce),
                forall|j: int|
                    0 <= j < idx ==> !is_message(
                        #[trigger] self.failed_messages@[j],
                        src_chain_id,
                        src_address,
                        nonce,
                    ),
            decreases self.failed_messages@.len() - idx,
        {
            let m = &self.failed_messages[idx];
            if m.src_chain_id == src_chain_id && addr_eq(&m.src_address, &src_address) && m.nonce
                == nonce {
                break;
            }
            idx += 1;
        }
        let ghost i = idx as int;
        assert(is_message(old(self).failed_messages@[i], src_chain_id, src_address, nonce));
        let failed = self.failed_messages.remove(idx);
        self.inbound_nonces.insert((src_chain_id, src_address), nonce);
        failed.payload
    }

    /// Whether `address` is the trusted remote of `chain_id`.
    pub fn is_trusted_remote(&self, chain_id: u16, address: &[u8; 32]) -> (r: bool)
        requires
            self.wf(),
        ensures
            r == (self.trusted_remotes@.contains_key(chain_id) && self.trusted_remotes@[chain_id]
                == *address),
    {
        match self.trusted_remotes.get(&chain_id) {
            Some(a) => addr_eq(a, address),
            None => false,
        }
    }

    /// The last nonce sent to `chain_id`.
    pub fn get_outbound_nonce(&self, chain_id: u16) -> (r: u64)
        requires
            self.wf(),
        ensures
            r == self.outbound_nonces.get_or(chain_id, 0),
    {
        self.outbound_nonces.get_or_zero(&chain_id)
    }

    /// The last nonce taken in from `address` on `chain_id`.
    pub fn get_inbound_nonce(&self, chain_id: u16, address: &[u8; 32]) -> (r: u64)
        requires
            self.wf(),
        ensures
            r == self.inbound_nonces.get_or((chain_id, address@), 0),
    {
        self.inbound_nonces.get_or_zero(&(chain_id, *address))
    }

    /// The number of messages kept for a retry.
    pub fn failed_message_count(&self) -> (r: usize)
        ensures
            r == self.failed_messages@.len(),
    {
        self.failed_messages.len()
    }
}

/// The messages of a path are taken in order and once: once nonce `nonce`
/// is accepted, as `lz_receive` records it, the path expects `nonce + 1`,
/// so the same nonce again is kept for a retry and not minted.
pub proof fn law_nonce_taken_in_once(
    before: LayerZeroState,
    after: LayerZeroState,
    src_chain_id: u16,
    src_address: [u8; 32],
    nonce: u64,
)
    requires
        after.inbound_nonces@ == before.inbound_nonces@.insert((src_chain_id, src_address@), nonce),
    ensures
        after.inbound_nonces.get_or((src_chain_id, src_address@), 0) + 1 == nonce + 1,
        after.inbound_nonces.get_or((src_chain_id, src_address@), 0) + 1 != nonce,
{
}

} // verus!
