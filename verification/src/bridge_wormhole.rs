//! A Wormhole token bridge: transfers out are logged with a sequence number;
//! transfers in come as VAAs, which need a quorum of guardian signatures and
//! are consumed once.
use vstd::prelude::*;
use crate::addr::addr_eq;
use crate::hashing::{sha256, sha256_of};
use crate::keymap::KeyMap;

verus! {

/// Wormhole chain ids.
pub const CHAIN_SOLANA: u16 = 1;

pub const CHAIN_ETHEREUM: u16 = 2;

pub const CHAIN_ARBITRUM: u16 = 23;

pub const CHAIN_BASE: u16 = 30;

pub const CHAIN_DINA: u16 = 99;

/// A guardian and its public key.
#[derive(Clone, Debug)]
pub struct Guardian {
    pub index: u8,
    pub pubkey: [u8; 32],
}

/// A numbered set of guardians and the signatures a VAA needs from them.
#[derive(Clone, Debug)]
pub struct GuardianSet {
    pub index: u32,
    pub guardians: Vec<Guardian>,
    pub quorum: u32,
}

/// A verified action approval: an attested cross-chain message.
#[derive(Clone, Debug)]
pub struct Vaa {
    pub version: u8,
    pub guardian_set_index: u32,
    pub timestamp: u32,
    pub nonce: u32,
    pub emitter_chain: u16,
    pub emitter_address: [u8; 32],
    pub sequence: u64,
    pub consistency_level: u8,
    pub payload: VaaPayload,
    pub signatures: Vec<VaaSignature>,
}

/// A guardian's signature on a VAA: the SHA-256 digest of the body hash
/// followed by the guardian's public key.
#[derive(Clone, Debug)]
pub struct VaaSignature {
    pub guardian_index: u8,
    pub signature: [u8; 32],
}

/// A token transfer.
#[derive(Clone, Debug)]
pub struct VaaPayload {
    /// 1 for a transfer, 3 for a transfer with a payload.
    pub payload_type: u8,
    pub amount: u64,
    pub token_address: [u8; 32],
    pub token_chain: u16,
    pub recipient: [u8; 32],
    pub recipient_chain: u16,
    pub sender: [u8; 32],
}

/// The state of the bridge.
#[derive(Clone, Debug)]
pub struct WormholeState {
    pub owner: [u8; 32],
    pub wormhole_chain_id: u16,
    pub guardian_set: GuardianSet,
    pub finality: u32,
    /// The body hashes of the VAAs taken in.
    pub consumed_vaas: KeyMap<[u8; 32], bool>,
    pub next_sequence: u64,
    pub usdc_token: [u8; 32],
    pub transfer_log: Vec<VaaPayload>,
    pub paused: bool,
}

/// Why a VAA's signatures are refused.
#[derive(Clone, Copy, Debug, PartialEq, Eq, Structural)]
pub enum SignatureError {
    /// Fewer signatures than the quorum.
    Insufficient,
    /// Signature `i` is by a guardian that signed before it.
    Duplicate(usize),
    /// Signature `i` names no guardian of the set.
    UnknownGuardian(usize),
    /// Signature `i` does not match its guardian's key.
    Invalid(usize),
}

/// Why a transfer in is refused.
#[derive(Clone, Copy, Debug, PartialEq, Eq, Structural)]
pub enum TransferError {
    /// The VAA was taken in before.
    AlreadyConsumed,
    Signatures(SignatureError),
}

/// The quorum of a set of `n` guardians: more than two thirds.
pub open spec fn quorum_for(n: nat) -> u32 {
    ((n as u32) as int * 2 / 3 + 1) as u32
}

/// Whether `gs` holds a guardian with index `i`.
pub open spec fn has_guardian(gs: Seq<Guardian>, i: u8) -> bool {
    exists|j: int| 0 <= j < gs.len() && (#[trigger] gs[j]).index == i
}

/// The position of the first guardian of `gs` with index `i`.
pub open spec fn first_guardian(gs: Seq<Guardian>, i: u8) -> int {
    choose|j: int|
        0 <= j < gs.len() && (#[trigger] gs[j]).index == i && forall|k: int|
            0 <= k < j ==> (#[trigger] gs[k]).index != i
}

/// The signature guardian `g` makes on a VAA with body hash `h`.
pub open spec fn signature_of(h: Seq<u8>, g: Guardian) -> Seq<u8> {
    sha256_of(h + g.pubkey@)
}

/// Whether signature `i` of `sigs` is by a guardian that signed none before
/// it, is known to `gs`, and matches that guardian's key.
pub open spec fn sig_ok(sigs: Seq<VaaSignature>, i: int, gs: Seq<Guardian>, h: Seq<u8>) -> bool {
    &&& forall|k: int| 0 <= k < i ==> (#[trigger] sigs[k]).guardian_index != sigs[i].guardian_index
    &&& has_guardian(gs, sigs[i].guardian_index)
    &&& sigs[i].signature@ == signature_of(h, gs[first_guardian(gs, sigs[i].guardian_index)])
}

/// Whether a VAA with body hash `h` carries enough good signatures of `set`.
pub open spec fn signatures_valid(sigs: Seq<VaaSignature>, set: GuardianSet, h: Seq<u8>) -> bool {
    &&& sigs.len() >= set.quorum
    &&& forall|i: int| 0 <= i < sigs.len() ==> #[trigger] sig_ok(sigs, i, set.guardians@, h)
}

/// Whether `e` is the first fault of `sigs`: signature `i` fails, every one
/// before it passes, and `e` says how it fails.
pub open spec fn first_fault(sigs: Seq<VaaSignature>, gs: Seq<Guardian>, h: Seq<u8>, e: SignatureError) -> bool {
    match e {
        SignatureError::Insufficient => false,
        SignatureError::Duplicate(i) => {
            &&& i < sigs.len()
            &&& forall|j: int| 0 <= j < i ==> #[trigger] sig_ok(sigs, j, gs, h)
            &&& exists|k: int| 0 <= k < i && (#[trigger] sigs[k]).guardian_index == sigs[i as int].guardian_index
        },
        SignatureError::UnknownGuardian(i) => {
            &&& i < sigs.len()
            &&& forall|j: int| 0 <= j < i ==> #[trigger] sig_ok(sigs, j, gs, h)
            &&& forall|k: int| 0 <= k < i ==> (#[trigger] sigs[k]).guardian_index != sigs[i as int].guardian_index
            &&& !has_guardian(gs, sigs[i as int].guardian_index)
        },
        SignatureError::Invalid(i) => {
            &&& i < sigs.len()
            &&& forall|j: int| 0 <= j < i ==> #[trigger] sig_ok(sigs, j, gs, h)
            &&& forall|k: int| 0 <= k < i ==> (#[trigger] sigs[k]).guardian_index != sigs[i as int].guardian_index
            &&& has_guardian(gs, sigs[i as int].guardian_index)
            &&& sigs[i as int].signature@ != signature_of(h, gs[first_guardian(gs, sigs[i as int].guardian_index)])
        },
    }
}

impl Vaa {
    /// The hash of a VAA body, given the body serialized: its SHA-256 digest.
    pub fn body_hash(body: &[u8]) -> (r: [u8; 32])
        ensures
            r@ == sha256_of(body@),
    {
        sha256(body)
    }
}

/// The position of the first guardian with index `i`, if any.
fn find_guardian(gs: &Vec<Guardian>, i: u8) -> (r: Option<usize>)
    ensures
        match r {
            Some(j) => j < gs@.len() && j == first_guardian(gs@, i) && gs@[j as int].index == i
                && has_guardian(gs@, i),
            None => !has_guardian(gs@, i),
        },
{
    let mut j: usize = 0;
    while j < gs.len()
        invariant
            j <= gs@.len(),
            forall|k: int| 0 <= k < j ==> (#[trigger] gs@[k]).index != i,
        decreases gs@.len() - j,
    {
        if gs[j].index == i {
            proof {
                let f = first_guardian(gs@, i);
                assert(0 <= j < gs@.len() && gs@[j as int].index == i && forall|k: int|
                    0 <= k < j ==> (#[trigger] gs@[k]).index != i);
                if f != j {
                    if f < j {
                        assert(gs@[f].index != i);
                    } else {
                        assert(gs@[j as int].index != i);
                    }
                }
            }
            return Some(j);
        }
        j += 1;
    }
    None
}

impl WormholeState {
    pub open spec fn wf(&self) -> bool {
        self.consumed_vaas.wf()
    }

    /// A bridge for this chain guarded by `guardians`, as set number zero.
    pub fn new(owner: [u8; 32], guardians: Vec<Guardian>, usdc_token: [u8; 32]) -> (s: Self)
        requires
            (guardians@.len() as u32) * 2 <= u32::MAX,
        ensures
            s.wf(),
            s.owner == owner,
            s.wormhole_chain_id == CHAIN_DINA,
            s.guardian_set == (GuardianSet { index: 0, guardians, quorum: quorum_for(guardians@.len()) }),
            s.finality == 1,
            s.consumed_vaas@ == Map::<Seq<u8>, bool>::empty(),
            s.next_sequence == 1,
            s.usdc_token == usdc_token,
            s.transfer_log@ == Seq::<VaaPayload>::empty(),
            !s.paused,
    {
        let quorum = ((guardians.len() as u32) * 2 / 3) + 1;
        WormholeState {
            owner,
            wormhole_chain_id: CHAIN_DINA,
            guardian_set: GuardianSet { index: 0, guardians, quorum },
            finality: 1,
            consumed_vaas: KeyMap::new(),
            next_sequence: 1,
            usdc_token,
            transfer_log: Vec::new(),
            paused: false,
        }
    }

    /// Replaces the guardians by a new set with the next number; the owner only.
    pub fn update_guardian_set(&mut self, caller: [u8; 32], new_guardians: Vec<Guardian>)
        requires
            caller == old(self).owner,
            (new_guardians@.len() as u32) * 2 <= u32::MAX,
            old(self).guardian_set.index < u32::MAX,
        ensures
            *final(self) == (WormholeState {
                guardian_set: GuardianSet {
                    index: (old(self).guardian_set.index + 1) as u32,
                    guardians: new_guardians,
                    quorum: quorum_for(new_guardians@.len()),
                },
                ..*old(self)
            }),
    {
        let quorum = ((new_guardians.len() as u32) * 2 / 3) + 1;
        self.guardian_set = GuardianSet {
            index: self.guardian_set.index + 1,
            guardians: new_guardians,
            quorum,
        };
    }

    /// Sets the finality required; the owner only.
    pub fn set_finality(&mut self, caller: [u8; 32], finality: u32)
        requires
            caller == old(self).owner,
        ensures
            *final(self) == (WormholeState { finality, ..*old(self) }),
    {
        self.finality = finality;
    }

    pub fn pause(&mut self, caller: [u8; 32])
        requires
            caller == old(self).owner,
        ensures
            *final(self) == (WormholeState { paused: true, ..*old(self) }),
    {
        self.paused = true;
    }

    pub fn unpause(&mut self, caller: [u8; 32])
        requires
            caller == old(self).owner,
        ensures
            *final(self) == (WormholeState { paused: false, ..*old(self) }),
    {
        self.paused = false;
    }

    /// Logs a transfer of `amount` to `target_address` on another chain and
    /// returns its sequence number.
    pub fn send_tokens(&mut self, caller: [u8; 32], amount: u64, target_chain: u16, target_address: [u8; 32]) -> (r:
        u64)
        requires
            !old(self).paused,
            amount > 0,
            target_chain != old(self).wormhole_chain_id,
            old(self).next_sequence < u64::MAX,
        ensures
            r == old(self).next_sequence,
            final(self).next_sequence == r + 1,
            final(self).transfer_log@ == old(self).transfer_log@.push(
                VaaPayload {
                    payload_type: 1,
                    amount,
                    token_address: old(self).usdc_token,
                    token_chain: CHAIN_DINA,
                    recipient: target_address,
                    recipient_chain: target_chain,
                    sender: caller,
                },
            ),
            *final(self) == (WormholeState {
                next_sequence: final(self).next_sequence,
                transfer_log: final(self).transfer_log,
                ..*old(self)
            }),
    {
        let payload = VaaPayload {
            payload_type: 1,
            amount,
            token_address: self.usdc_token,
            token_chain: CHAIN_DINA,
            recipient: target_address,
            recipient_chain: target_chain,
            sender: caller,
        };
        let sequence = self.next_sequence;
        self.next_sequence = self.next_sequence + 1;
        self.transfer_log.push(payload);
        sequence
    }

    /// Checks the signatures of a VAA with body hash `body_hash` against the
    /// guardian set, signature by signature, and reports the first fault.
    pub fn verify_signatures(&self, vaa: &Vaa, body_hash: &[u8; 32]) -> (r: Result<(), SignatureError>)
        ensures
            r is Ok <==> signatures_valid(vaa.signatures@, self.guardian_set, body_hash@),
            r == Err::<(), SignatureError>(SignatureError::Insufficient) <==> vaa.signatures@.len()
                < self.guardian_set.quorum,
            r matches Err(e) ==> (e != SignatureError::Insufficient ==> first_fault(
                vaa.signatures@,
                self.guardian_set.guardians@,
                body_hash@,
                e,
            )),
    {
        let sigs = &vaa.signatures;
        if (sigs.len() as u64) < self.guardian_set.quorum as u64 {
            return Err(SignatureError::Insufficient);
        }
        let gs = &self.guardian_set.guardians;
        let ghost h = body_hash@;
        let mut i: usize = 0;
        while i < sigs.len()
            invariant
                i <= sigs@.len(),
                sigs@.len() >= self.guardian_set.quorum,
                *gs == self.guardian_set.guardians,
                *sigs == vaa.signatures,
                h == body_hash@,
                forall|j: int| 0 <= j < i ==> #[trigger] sig_ok(sigs@, j, gs@, h),
            decreases sigs@.len() - i,
        {
            let gi = sigs[i].guardian_index;
            let mut k: usize = 0;
            while k < i
                invariant
                    k <= i < sigs@.len(),
                    sigs@.len() >= self.guardian_set.quorum,
                    *gs == self.guardian_set.guardians,
                    *sigs == vaa.signatures,
                    h == body_hash@,
                    forall|j: int| 0 <= j < i ==> #[trigger] sig_ok(sigs@, j, gs@, h),
                    gi == sigs@[i as int].guardian_index,
                    forall|m: int| 0 <= m < k ==> (#[trigger] sigs@[m]).guardian_index != gi,
                decreases i - k,
            {
                if sigs[k].guardian_index == gi {
                    proof {
                        assert(sigs@[k as int].guardian_index == sigs@[i as int].guardian_index);
                        assert(!sig_ok(sigs@, i as int, gs@, h));
                    }
                    return Err(SignatureError::Duplicate(i));
                }
                k += 1;
            }
            let ghost gj: int = 0;
            let g = match find_guardian(gs, gi) {
                Some(j) => {
                    proof {
                        gj = j as int;
                    }
                    &gs[j]
                },
                None => {
                    proof {
                        assert(!sig_ok(sigs@, i as int, gs@, h));
                    }
                    return Err(SignatureError::UnknownGuardian(i));
                },
            };
            let mut input: Vec<u8> = Vec::new();
            let mut b: usize = 0;
            while b < 32
                invariant
                    b <= 32,
                    input@ == body_hash@.take(b as int),
                decreases 32 - b,
            {
                input.push(body_hash[b]);
                assert(body_hash@.take(b + 1) =~= body_hash@.take(b as int).push(body_hash@[b as int]));
                b += 1;
            }
            let mut c: usize = 0;
            while c < 32
                invariant
                    c <= 32,
                    input@ == body_hash@ + g.pubkey@.take(c as int),
                decreases 32 - c,
            {
                input.push(g.pubkey[c]);
                assert(g.pubkey@.take(c + 1) =~= g.pubkey@.take(c as int).push(g.pubkey@[c as int]));
                c += 1;
            }
            proof {
                assert(body_hash@.take(32) =~= body_hash@);
                assert(g.pubkey@.take(32) =~= g.pubkey@);
            }
            let expected = sha256(input.as_slice());
            if !addr_eq(&sigs[i].signature, &expected) {
                proof {
                    crate::addr::lemma_addr_view_eq(sigs@[i as int].signature, expected);
                    assert(sigs@[i as int].signature@ != expected@);
                    assert(!sig_ok(sigs@, i as int, gs@, h));
                    assert(gj == first_guardian(gs@, gi));
                    assert(*g == gs@[gj]);
                }
                return Err(SignatureError::Invalid(i));
            }
            proof {
                assert(sigs@[i as int].signature == expected);
                assert(gj == first_guardian(gs@, gi));
                assert(*g == gs@[gj]);
                assert(sig_ok(sigs@, i as int, gs@, h));
            }
            i += 1;
        }
        Ok(())
    }

    /// Takes in a transfer: a version-1 VAA of the current guardian set for
    /// this chain, not taken in before, with enough good signatures, whose
    /// body serializes to `body`. Records it as consumed and returns the
    /// amount to mint.
    pub fn complete_transfer(&mut self, vaa: Vaa, body: &[u8]) -> (r: u64)
        requires
            old(self).wf(),
            !old(self).paused,
            vaa.version == 1,
            vaa.guardian_set_index == old(self).guardian_set.index,
            vaa.payload.recipient_chain == old(self).wormhole_chain_id,
            !old(self).consumed_vaas@.contains_key(sha256_of(body@)),
            signatures_valid(vaa.signatures@, old(self).guardian_set, sha256_of(body@)),
        ensures
            final(self).wf(),
            r == vaa.payload.amount,
            final(self).consumed_vaas@ == old(self).consumed_vaas@.insert(sha256_of(body@), true),
            *final(self) == (WormholeState { consumed_vaas: final(self).consumed_vaas, ..*old(self) }),
    {
        let vaa_hash = Vaa::body_hash(body);
        self.consumed_vaas.insert(vaa_hash, true);
        vaa.payload.amount
    }

    /// Takes in a transfer as `complete_transfer` does where the VAA was not
    /// taken in before and its signatures hold, and says which of the two
    /// fails otherwise, changing nothing.
    pub fn try_complete_transfer(&mut self, vaa: Vaa, body: &[u8]) -> (r: Result<u64, TransferError>)
        requires
            old(self).wf(),
            !old(self).paused,
            vaa.version == 1,
            vaa.guardian_set_index == old(self).guardian_set.index,
            vaa.payload.recipient_chain == old(self).wormhole_chain_id,
        ensures
            final(self).wf(),
            ({
                let h = sha256_of(body@);
                &&& r == Err::<u64, TransferError>(TransferError::AlreadyConsumed)
                    <==> old(self).consumed_vaas@.contains_key(h)
                &&& r is Ok <==> !old(self).consumed_vaas@.contains_key(h) && signatures_valid(
                    vaa.signatures@,
                    old(self).guardian_set,
                    h,
                )
                &&& r matches Err(TransferError::Signatures(e)) ==> !old(self).consumed_vaas@.contains_key(h)
                    && (e == SignatureError::Insufficient <==> vaa.signatures@.len() < old(self).guardian_set.quorum)
                    && (e != SignatureError::Insufficient ==> first_fault(
                    vaa.signatures@,
                    old(self).guardian_set.guardians@,
                    h,
                    e,
                ))
                &&& r is Ok ==> r == Ok::<u64, TransferError>(vaa.payload.amount) && final(self).consumed_vaas@
                    == old(self).consumed_vaas@.insert(h, true)
                &&& r is Ok ==> *final(self) == (WormholeState {
                    consumed_vaas: final(self).consumed_vaas,
                    ..*old(self)
                })
                &&& r is Err ==> *final(self) == *old(self)
            }),
    {
        let vaa_hash = Vaa::body_hash(body);
        if self.consumed_vaas.contains_key(&vaa_hash) {
            return Err(TransferError::AlreadyConsumed);
        }
        match self.verify_signatures(&vaa, &vaa_hash) {
            Ok(()) => Ok(self.complete_transfer(vaa, body)),
            Err(e) => Err(TransferError::Signatures(e)),
        }
    }

    /// Whether the VAA with body hash `vaa_hash` was taken in.
    pub fn is_vaa_consumed(&self, vaa_hash: &[u8; 32]) -> (r: bool)
        requires
            self.wf(),
        ensures
            r == self.consumed_vaas.get_or(vaa_hash@, false),
    {
        self.consumed_vaas.get_or_false(vaa_hash)
    }

    /// The number of transfers sent out.
    pub fn transfer_count(&self) -> (r: usize)
        ensures
            r == self.transfer_log@.len(),
    {
        self.transfer_log.len()
    }
}

/// A VAA is taken in once: once its body hash is recorded, as
/// `complete_transfer` records it, it reads as consumed, and
/// `complete_transfer` no longer accepts it.
pub proof fn law_vaa_taken_in_once(before: WormholeState, after: WormholeState, body: Seq<u8>)
    requires
        after.consumed_vaas@ == before.consumed_vaas@.insert(sha256_of(body), true),
    ensures
        after.consumed_vaas@.contains_key(sha256_of(body)),
        after.consumed_vaas.get_or(sha256_of(body), false),
{
}

} // verus!
