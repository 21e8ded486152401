//! Circle's cross-chain transfer protocol: USDC burned here is logged as a
//! message with a nonce; messages from other domains are taken in once per
//! source nonce, on the attester's Ed25519 signature of their hash.
use vstd::prelude::*;
use crate::addr::zero_address;
use crate::hashing::{sha256, sha256_of};
use crate::keymap::KeyMap;
use crate::signatures::{ed25519_check, ed25519_key_valid, ed25519_verifies, Ed25519Check};

verus! {

/// CCTP domain ids.
pub const DOMAIN_ETHEREUM: u32 = 0;

pub const DOMAIN_ARBITRUM: u32 = 3;

pub const DOMAIN_SOLANA: u32 = 5;

pub const DOMAIN_BASE: u32 = 6;

pub const DOMAIN_DINA: u32 = 99;

/// A burn message.
#[derive(Clone, Debug)]
pub struct CctpMessage {
    pub version: u32,
    pub source_domain: u32,
    pub destination_domain: u32,
    pub nonce: u64,
    pub sender: [u8; 32],
    pub recipient: [u8; 32],
    pub destination_caller: [u8; 32],
    pub burn_token: [u8; 32],
    pub mint_recipient: [u8; 32],
    pub amount: u64,
}

/// The state of the transmitter.
#[derive(Clone, Debug)]
pub struct CctpState {
    pub owner: [u8; 32],
    pub local_domain: u32,
    pub next_nonce: u64,
    pub attester_pubkey: [u8; 32],
    pub usdc_token_address: [u8; 32],
    /// The source nonces taken in, by source domain and nonce.
    pub used_nonces: KeyMap<(u32, u64), bool>,
    pub paused: bool,
    pub max_message_body_size: u64,
    pub remote_token_messengers: KeyMap<u32, [u8; 32]>,
    pub message_log: Vec<CctpMessage>,
}

impl CctpMessage {
    /// The hash of a message, given the message serialized: its SHA-256 digest.
    pub fn hash(serialized: &[u8]) -> (r: [u8; 32])
        ensures
            r@ == sha256_of(serialized@),
    {
        sha256(serialized)
    }
}

impl CctpState {
    pub open spec fn wf(&self) -> bool {
        self.used_nonces.wf() && self.remote_token_messengers.wf()
    }

    /// Whether `message` may be taken in: meant for this domain, from
    /// another one, and its source nonce not taken in before.
    pub open spec fn acceptable(&self, message: CctpMessage) -> bool {
        &&& !self.paused
        &&& message.destination_domain == self.local_domain
        &&& message.source_domain != self.local_domain
        &&& !self.used_nonces@.contains_key((message.source_domain, message.nonce))
    }

    /// A transmitter for this domain attested by `attester_pubkey`.
    pub fn new(owner: [u8; 32], attester_pubkey: [u8; 32], usdc_token_address: [u8; 32]) -> (s: Self)
        ensures
            s.wf(),
            s.owner == owner,
            s.local_domain == DOMAIN_DINA,
            s.next_nonce == 1,
            s.attester_pubkey == attester_pubkey,
            s.usdc_token_address == usdc_token_address,
            s.used_nonces@ == Map::<(u32, u64), bool>::empty(),
            !s.paused,
            s.max_message_body_size == 8192,
            s.remote_token_messengers@ == Map::<u32, [u8; 32]>::empty(),
            s.message_log@ == Seq::<CctpMessage>::empty(),
    {
        CctpState {
            owner,
            local_domain: DOMAIN_DINA,
            next_nonce: 1,
            attester_pubkey,
            usdc_token_address,
            used_nonces: KeyMap::new(),
            paused: false,
            max_message_body_size: 8192,
            remote_token_messengers: KeyMap::new(),
            message_log: Vec::new(),
        }
    }

    /// Records the token messenger of another domain; the owner only.
    pub fn set_remote_token_messenger(&mut self, caller: [u8; 32], domain: u32, messenger: [u8; 32])
        requires
            old(self).wf(),
            caller == old(self).owner,
        ensures
            final(self).wf(),
            final(self).remote_token_messengers@ == old(self).remote_token_messengers@.insert(domain, messenger),
            *final(self) == (CctpState {
                remote_token_messengers: final(self).remote_token_messengers,
                ..*old(self)
            }),
    {
        self.remote_token_messengers.insert(domain, messenger);
    }

    /// Replaces the attester's key; the owner only.
    pub fn set_attester(&mut self, caller: [u8; 32], new_attester: [u8; 32])
        requires
            caller == old(self).owner,
        ensures
            *final(self) == (CctpState { attester_pubkey: new_attester, ..*old(self) }),
    {
        self.attester_pubkey = new_attester;
    }

    pub fn pause(&mut self, caller: [u8; 32])
        requires
            caller == old(self).owner,
        ensures
            *final(self) == (CctpState { paused: true, ..*old(self) }),
    {
        self.paused = true;
    }

    pub fn unpause(&mut self, caller: [u8; 32])
        requires
            caller == old(self).owner,
        ensures
            *final(self) == (CctpState { paused: false, ..*old(self) }),
    {
        self.paused = false;
    }

    /// Burns `amount` for `mint_recipient` on a known other domain: logs the
    /// burn message, which anyone may relay, and returns its nonce.
    pub fn deposit_for_burn(&mut self, caller: [u8; 32], amount: u64, destination_domain: u32, mint_recipient: [u8; 32]) -> (r:
        u64)
        requires
            old(self).wf(),
            !old(self).paused,
            amount > 0,
            destination_domain != old(self).local_domain,
            old(self).remote_token_messengers@.contains_key(destination_domain),
            old(self).next_nonce < u64::MAX,
        ensures
            final(self).wf(),
            r == old(self).next_nonce,
            final(self).next_nonce == r + 1,
            final(self).message_log@.len() == old(self).message_log@.len() + 1,
            final(self).message_log@.drop_last() == old(self).message_log@,
            ({
                let m = final(self).message_log@.last();
                &&& m == CctpMessage {
                    version: 0,
                    source_domain: old(self).local_domain,
                    destination_domain,
                    nonce: r,
                    sender: caller,
                    recipient: mint_recipient,
                    destination_caller: m.destination_caller,
                    burn_token: old(self).usdc_token_address,
                    mint_recipient,
                    amount,
                }
                &&& m.destination_caller@ == zero_address()
            }),
            *final(self) == (CctpState {
                next_nonce: final(self).next_nonce,
                message_log: final(self).message_log,
                ..*old(self)
            }),
    {
        let nonce = self.next_nonce;
        self.next_nonce = self.next_nonce + 1;
        let zero = [0u8; 32];
        assert(zero@ =~= zero_address());
        let message = CctpMessage {
            version: 0,
            source_domain: self.local_domain,
            destination_domain,
            nonce,
            sender: caller,
            recipient: mint_recipient,
            destination_caller: zero,
            burn_token: self.usdc_token_address,
            mint_recipient,
            amount,
        };
        self.message_log.push(message);
        assert(self.message_log@.drop_last() =~= old(self).message_log@);
        nonce
    }

    /// Takes in `message`, serialized as `serialized`, on the attester's
    /// signature of its hash: records its source nonce as taken in.
    pub fn receive_message(&mut self, message: CctpMessage, attestation: [u8; 64], serialized: &[u8]) -> (r: bool)
        requires
            old(self).wf(),
            old(self).acceptable(message),
            ed25519_key_valid(old(self).attester_pubkey@),
            ed25519_verifies(old(self).attester_pubkey@, sha256_of(serialized@), attestation@),
        ensures
            final(self).wf(),
            r,
            final(self).used_nonces@ == old(self).used_nonces@.insert(
                (message.source_domain, message.nonce),
                true,
            ),
            *final(self) == (CctpState { used_nonces: final(self).used_nonces, ..*old(self) }),
    {
        self.used_nonces.insert((message.source_domain, message.nonce), true);
        true
    }

    /// Takes in a message as `receive_message` does where the attestation
    /// checks out, and otherwise says whether the key or the signature
    /// failed, changing nothing.
    pub fn try_receive_message(&mut self, message: CctpMessage, attestation: [u8; 64], serialized: &[u8]) -> (r:
        Result<bool, Ed25519Check>)
        requires
            old(self).wf(),
            old(self).acceptable(message),
        ensures
            final(self).wf(),
            ({
                let pk = old(self).attester_pubkey@;
                let h = sha256_of(serialized@);
                &&& (r == Err::<bool, Ed25519Check>(Ed25519Check::InvalidKey)) <==> !ed25519_key_valid(pk)
                &&& r is Ok <==> ed25519_key_valid(pk) && ed25519_verifies(pk, h, attestation@)
                &&& r is Ok ==> r == Ok::<bool, Ed25519Check>(true) && final(self).used_nonces@
                    == old(self).used_nonces@.insert((message.source_domain, message.nonce), true)
                    && *final(self) == (CctpState { used_nonces: final(self).used_nonces, ..*old(self) })
                &&& r is Err ==> *final(self) == *old(self) && r != Err::<bool, Ed25519Check>(
                    Ed25519Check::Valid,
                )
            }),
    {
        let message_hash = CctpMessage::hash(serialized);
        match ed25519_check(&self.attester_pubkey, &message_hash, &attestation) {
            Ed25519Check::Valid => Ok(self.receive_message(message, attestation, serialized)),
            failure => Err(failure),
        }
    }

    /// Whether the nonce `nonce` of `source_domain` was taken in.
    pub fn is_nonce_used(&self, source_domain: u32, nonce: u64) -> (r: bool)
        requires
            self.wf(),
        ensures
            r == self.used_nonces.get_or((source_domain, nonce), false),
    {
        self.used_nonces.get_or_false(&(source_domain, nonce))
    }

    /// The number of burn messages sent.
    pub fn message_count(&self) -> (r: usize)
        ensures
            r == self.message_log@.len(),
    {
        self.message_log.len()
    }
}

/// A message is taken in once: once its source nonce is recorded, as
/// `receive_message` records it, the same message is no longer acceptable.
pub proof fn law_message_taken_in_once(before: CctpState, after: CctpState, message: CctpMessage)
    requires
        after.used_nonces@ == before.used_nonces@.insert((message.source_domain, message.nonce), true),
    ensures
        !after.acceptable(message),
{
}

} // verus!
