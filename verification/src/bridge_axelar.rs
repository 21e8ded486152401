//! An Axelar gateway bridge: transfers out go to trusted chains; commands in
//! come from the gateway, carry its Ed25519 signature over a SHA-256 digest
//! of the command, come from a trusted source, and run once.
use vstd::prelude::*;
use vstd::utf8::encode_utf8;
use crate::bytes::{append_bytes, le_bytes, le_bytes_of};
use crate::hashing::{sha256, sha256_of};
use crate::keymap::KeyMap;
use crate::signatures::{ed25519_check, ed25519_key_valid, ed25519_verifies, Ed25519Check};

verus! {

/// A transfer sent to another chain.
#[derive(Clone, Debug)]
pub struct OutboundTransfer {
    pub destination_chain: String,
    pub destination_address: String,
    pub amount: u64,
    pub sender: [u8; 32],
    pub token_symbol: String,
}

/// A command taken in.
#[derive(Clone, Debug)]
pub struct ProcessedCommand {
    pub command_id: [u8; 32],
    pub source_chain: String,
    pub source_address: String,
    /// The first 32 bytes of the payload, padded with zeros.
    pub payload_hash: [u8; 32],
    /// The amount of a command with a token.
    pub amount: Option<u64>,
}

/// The state of the bridge.
#[derive(Clone, Debug)]
pub struct AxelarState {
    pub owner: [u8; 32],
    pub gateway_address: [u8; 32],
    pub gateway_pubkey: [u8; 32],
    pub its_address: [u8; 32],
    pub usdc_token: [u8; 32],
    pub processed_commands: KeyMap<[u8; 32], bool>,
    pub command_log: Vec<ProcessedCommand>,
    pub outbound_log: Vec<OutboundTransfer>,
    /// The trusted source address by chain name.
    pub trusted_sources: KeyMap<String, String>,
    /// Token addresses by symbol.
    pub token_registry: KeyMap<String, [u8; 32]>,
    pub paused: bool,
    pub chain_name: String,
}

/// Why a command is refused once the gateway signs it.
#[derive(Clone, Copy, Debug, PartialEq, Eq, Structural)]
pub enum CommandRefusal {
    /// The gateway's public key does not decode.
    InvalidKey,
    /// The gateway's signature does not verify.
    InvalidSignature,
    /// The source chain or address is not trusted.
    UntrustedSource,
    /// The command's token is not registered.
    UnregisteredToken,
}

/// What the gateway signs the digest of for a command: its id, the source
/// chain and address, and the payload.
pub open spec fn execute_message(cmd: Seq<u8>, chain: Seq<char>, address: Seq<char>, payload: Seq<u8>) -> Seq<u8> {
    cmd + encode_utf8(chain) + encode_utf8(address) + payload
}

/// What the gateway signs the digest of for a command with a token: that of
/// a command, then the token symbol and the amount's eight little-endian bytes.
pub open spec fn execute_with_token_message(
    cmd: Seq<u8>,
    chain: Seq<char>,
    address: Seq<char>,
    payload: Seq<u8>,
    symbol: Seq<char>,
    amount: u64,
) -> Seq<u8> {
    execute_message(cmd, chain, address, payload) + encode_utf8(symbol) + le_bytes(amount as nat, 8)
}

/// The first 32 bytes of `p`, padded with zeros.
pub open spec fn pad32(p: Seq<u8>) -> Seq<u8> {
    Seq::new(32, |i: int| if i < p.len() { p[i] } else { 0u8 })
}

impl AxelarState {
    pub open spec fn wf(&self) -> bool {
        &&& self.processed_commands.wf()
        &&& self.trusted_sources.wf()
        &&& self.token_registry.wf()
    }

    /// Whether `address` is the trusted source on chain `chain`.
    pub open spec fn trusted(&self, chain: Seq<char>, address: Seq<char>) -> bool {
        self.trusted_sources@.contains_key(chain) && self.trusted_sources@[chain]@ == address
    }

    /// Whether a command may be sent in: the bridge runs, the gateway sends
    /// it, and it did not run before.
    pub open spec fn command_open(&self, caller: [u8; 32], command_id: [u8; 32]) -> bool {
        !self.paused && caller == self.gateway_address && !self.processed_commands@.contains_key(command_id@)
    }

    /// Whether the gateway's signature `sig` on the digest of `message` verifies.
    pub open spec fn gateway_signed(&self, message: Seq<u8>, sig: [u8; 64]) -> bool {
        ed25519_key_valid(self.gateway_pubkey@) && ed25519_verifies(
            self.gateway_pubkey@,
            sha256_of(message),
            sig@,
        )
    }

    /// A bridge on chain "dina" with USDC registered.
    pub fn new(
        owner: [u8; 32],
        gateway_address: [u8; 32],
        gateway_pubkey: [u8; 32],
        its_address: [u8; 32],
        usdc_token: [u8; 32],
    ) -> (s: Self)
        ensures
            s.wf(),
            s.owner == owner,
            s.gateway_address == gateway_address,
            s.gateway_pubkey == gateway_pubkey,
            s.its_address == its_address,
            s.usdc_token == usdc_token,
            s.processed_commands@ == Map::<Seq<u8>, bool>::empty(),
            s.command_log@ == Seq::<ProcessedCommand>::empty(),
            s.outbound_log@ == Seq::<OutboundTransfer>::empty(),
            s.trusted_sources@ == Map::<Seq<char>, String>::empty(),
            s.token_registry@ == Map::<Seq<char>, [u8; 32]>::empty().insert("USDC"@, usdc_token),
            !s.paused,
            s.chain_name@ == "dina"@,
    {
        let mut token_registry = KeyMap::new();
        token_registry.insert(String::from_str("USDC"), usdc_token);
        AxelarState {
            owner,
            gateway_address,
            gateway_pubkey,
            its_address,
            usdc_token,
            processed_commands: KeyMap::new(),
            command_log: Vec::new(),
            outbound_log: Vec::new(),
            trusted_sources: KeyMap::new(),
            token_registry,
            paused: false,
            chain_name: String::from_str("dina"),
        }
    }

    /// Replaces the gateway's key; the owner only.
    pub fn set_gateway_pubkey(&mut self, caller: [u8; 32], new_pubkey: [u8; 32])
        requires
            caller == old(self).owner,
        ensures
            *final(self) == (AxelarState { gateway_pubkey: new_pubkey, ..*old(self) }),
    {
        self.gateway_pubkey = new_pubkey;
    }

    /// Checks the gateway's signature on a message digest.
    pub fn verify_gateway_signature(&self, message_hash: &[u8; 32], signature: &[u8; 64]) -> (r: Ed25519Check)
        ensures
            (r == Ed25519Check::InvalidKey) <==> !ed25519_key_valid(self.gateway_pubkey@),
            (r == Ed25519Check::Valid) <==> ed25519_key_valid(self.gateway_pubkey@) && ed25519_verifies(
                self.gateway_pubkey@,
                message_hash@,
                signature@,
            ),
    {
        ed25519_check(&self.gateway_pubkey, message_hash, signature)
    }

    /// The digest the gateway signs for a command.
    pub fn compute_execute_hash(command_id: &[u8; 32], source_chain: &str, source_address: &str, payload: &[u8]) -> (r:
        [u8; 32])
        ensures
            r@ == sha256_of(execute_message(command_id@, source_chain@, source_address@, payload@)),
    {
        let mut input: Vec<u8> = Vec::new();
        append_bytes(&mut input, command_id.as_slice());
        append_bytes(&mut input, source_chain.as_bytes());
        append_bytes(&mut input, source_address.as_bytes());
        append_bytes(&mut input, payload);
        assert(input@ =~= execute_message(command_id@, source_chain@, source_address@, payload@));
        sha256(input.as_slice())
    }

    /// The digest the gateway signs for a command with a token.
    pub fn compute_execute_with_token_hash(
        command_id: &[u8; 32],
        source_chain: &str,
        source_address: &str,
        payload: &[u8],
        token_symbol: &str,
        amount: u64,
    ) -> (r: [u8; 32])
        ensures
            r@ == sha256_of(
                execute_with_token_message(
                    command_id@,
                    source_chain@,
                    source_address@,
                    payload@,
                    token_symbol@,
                    amount,
                ),
            ),
    {
        let mut input: Vec<u8> = Vec::new();
        append_bytes(&mut input, command_id.as_slice());
        append_bytes(&mut input, source_chain.as_bytes());
        append_bytes(&mut input, source_address.as_bytes());
        append_bytes(&mut input, payload);
        append_bytes(&mut input, token_symbol.as_bytes());
        let le = le_bytes_of(amount);
        append_bytes(&mut input, le.as_slice());
        assert(input@ =~= execute_with_token_message(
            command_id@,
            source_chain@,
            source_address@,
            payload@,
            token_symbol@,
            amount,
        ));
        sha256(input.as_slice())
    }

    /// Trusts `source_address` as the bridge on chain `chain_name`; the owner only.
    pub fn set_trusted_source(&mut self, caller: [u8; 32], chain_name: String, source_address: String)
        requires
            old(self).wf(),
            caller == old(self).owner,
        ensures
            final(self).wf(),
            final(self).trusted_sources@ == old(self).trusted_sources@.insert(chain_name@, source_address),
            *final(self) == (AxelarState { trusted_sources: final(self).trusted_sources, ..*old(self) }),
    {
        self.trusted_sources.insert(chain_name, source_address);
    }

    /// Registers the address of a token; the owner only.
    pub fn register_token(&mut self, caller: [u8; 32], symbol: String, token_address: [u8; 32])
        requires
            old(self).wf(),
            caller == old(self).owner,
        ensures
            final(self).wf(),
            final(self).token_registry@ == old(self).token_registry@.insert(symbol@, token_address),
            *final(self) == (AxelarState { token_registry: final(self).token_registry, ..*old(self) }),
    {
        self.token_registry.insert(symbol, token_address);
    }

    /// Replaces the gateway; the owner only.
    pub fn set_gateway(&mut self, caller: [u8; 32], new_gateway: [u8; 32])
        requires
            caller == old(self).owner,
        ensures
            *final(self) == (AxelarState { gateway_address: new_gateway, ..*old(self) }),
    {
        self.gateway_address = new_gateway;
    }

    /// Replaces the token service; the owner only.
    pub fn set_its(&mut self, caller: [u8; 32], new_its: [u8; 32])
        requires
            caller == old(self).owner,
        ensures
            *final(self) == (AxelarState { its_address: new_its, ..*old(self) }),
    {
        self.its_address = new_its;
    }

    pub fn pause(&mut self, caller: [u8; 32])
        requires
            caller == old(self).owner,
        ensures
            *final(self) == (AxelarState { paused: true, ..*old(self) }),
    {
        self.paused = true;
    }

    pub fn unpause(&mut self, caller: [u8; 32])
        requires
            caller == old(self).owner,
        ensures
            *final(self) == (AxelarState { paused: false, ..*old(self) }),
    {
        self.paused = false;
    }

    /// Logs a USDC transfer of `amount` to a trusted chain.
    pub fn send_to_chain(&mut self, caller: [u8; 32], destination_chain: String, destination_address: String, amount: u64)
        requires
            old(self).wf(),
            !old(self).paused,
            amount > 0,
            old(self).trusted_sources@.contains_key(destination_chain@),
        ensures
            final(self).outbound_log@.len() == old(self).outbound_log@.len() + 1,
            final(self).outbound_log@.drop_last() == old(self).outbound_log@,
            ({
                let t = final(self).outbound_log@.last();
                &&& t == OutboundTransfer {
                    destination_chain,
                    destination_address,
                    amount,
                    sender: caller,
                    token_symbol: t.token_symbol,
                }
                &&& t.token_symbol@ == "USDC"@
            }),
            *final(self) == (AxelarState { outbound_log: final(self).outbound_log, ..*old(self) }),
    {
        self.outbound_log.push(
            OutboundTransfer {
                destination_chain,
                destination_address,
                amount,
                sender: caller,
                token_symbol: String::from_str("USDC"),
            },
        );
        assert(self.outbound_log@.drop_last() =~= old(self).outbound_log@);
    }

    /// The first 32 bytes of a payload, padded with zeros.
    fn payload_prefix(payload: &Vec<u8>) -> (r: [u8; 32])
        ensures
            r@ == pad32(payload@),
    {
        let mut h = [0u8; 32];
        let n = if payload.len() >= 32 {
            32
        } else {
            payload.len()
        };
        let mut i: usize = 0;
        while i < n
            invariant
                i <= n <= 32,
                n <= payload@.len(),
                n == (if payload@.len() >= 32 { 32 } else { payload@.len() }),
                h@.len() == 32,
                forall|j: int| 0 <= j < i ==> h@[j] == payload@[j],
                forall|j: int| i <= j < 32 ==> h@[j] == 0,
            decreases n - i,
        {
            h[i] = payload[i];
            i += 1;
        }
        assert(h@ =~= pad32(payload@));
        h
    }

    /// Records command `command_id` as run and logs it.
    fn record_command(
        &mut self,
        command_id: [u8; 32],
        source_chain: String,
        source_address: String,
        payload: &Vec<u8>,
        amount: Option<u64>,
    )
        requires
            old(self).wf(),
        ensures
            final(self).wf(),
            final(self).processed_commands@ == old(self).processed_commands@.insert(command_id@, true),
            final(self).command_log@.len() == old(self).command_log@.len() + 1,
            final(self).command_log@.drop_last() == old(self).command_log@,
            ({
                let c = final(self).command_log@.last();
                &&& c == ProcessedCommand {
                    command_id,
                    source_chain,
                    source_address,
                    payload_hash: c.payload_hash,
                    amount,
                }
                &&& c.payload_hash@ == pad32(payload@)
            }),
            *final(self) == (AxelarState {
                processed_commands: final(self).processed_commands,
                command_log: final(self).command_log,
                ..*old(self)
            }),
    {
        let payload_hash = Self::payload_prefix(payload);
        self.processed_commands.insert(command_id, true);
        self.command_log.push(
            ProcessedCommand { command_id, source_chain, source_address, payload_hash, amount },
        );
        assert(self.command_log@.drop_last() =~= old(self).command_log@);
    }

    /// Runs a command from the gateway: signed by it, from the trusted
    /// source, not run before. Records and logs it.
    pub fn execute(
        &mut self,
        caller: [u8; 32],
        command_id: [u8; 32],
        source_chain: String,
        source_address: String,
        payload: Vec<u8>,
        gateway_signature: [u8; 64],
    )
        requires
            old(self).wf(),
            old(self).command_open(caller, command_id),
            old(self).gateway_signed(
                execute_message(command_id@, source_chain@, source_address@, payload@),
                gateway_signature,
            ),
            old(self).trusted(source_chain@, source_address@),
        ensures
            final(self).wf(),
            final(self).processed_commands@ == old(self).processed_commands@.insert(command_id@, true),
            final(self).command_log@.len() == old(self).command_log@.len() + 1,
            final(self).command_log@.drop_last() == old(self).command_log@,
            ({
                let c = final(self).command_log@.last();
                &&& c == ProcessedCommand {
                    command_id,
                    source_chain,
                    source_address,
                    payload_hash: c.payload_hash,
                    amount: None,
                }
                &&& c.payload_hash@ == pad32(payload@)
            }),
            *final(self) == (AxelarState {
                processed_commands: final(self).processed_commands,
                command_log: final(self).command_log,
                ..*old(self)
            }),
    {
        self.record_command(command_id, source_chain, source_address, &payload, None);
    }

    /// Whether `address` is the trusted source on `chain`.
    fn source_trusted(&self, chain: &String, address: &String) -> (r: bool)
        requires
            self.wf(),
        ensures
            r == self.trusted(chain@, address@),
    {
        match self.trusted_sources.get(chain) {
            Some(a) => *a == *address,
            None => false,
        }
    }

    /// Runs a command as `execute` does, checking the gateway's signature
    /// and then the source first; returns the first of those to fail,
    /// changing nothing.
    pub fn try_execute(
        &mut self,
        caller: [u8; 32],
        command_id: [u8; 32],
        source_chain: String,
        source_address: String,
        payload: Vec<u8>,
        gateway_signature: [u8; 64],
    ) -> (r: Result<(), CommandRefusal>)
        requires
            old(self).wf(),
            old(self).command_open(caller, command_id),
        ensures
            final(self).wf(),
            ({
                let pk = old(self).gateway_pubkey@;
                let h = sha256_of(execute_message(command_id@, source_chain@, source_address@, payload@));
                &&& (r == Err::<(), CommandRefusal>(CommandRefusal::InvalidKey)) <==> !ed25519_key_valid(pk)
                &&& (r == Err::<(), CommandRefusal>(CommandRefusal::InvalidSignature)) <==> (
                ed25519_key_valid(pk) && !ed25519_verifies(pk, h, gateway_signature@))
                &&& (r == Err::<(), CommandRefusal>(CommandRefusal::UntrustedSource)) <==> (
                ed25519_key_valid(pk) && ed25519_verifies(pk, h, gateway_signature@) && !old(
                    self,
                ).trusted(source_chain@, source_address@))
                &&& r != Err::<(), CommandRefusal>(CommandRefusal::UnregisteredToken)
                &&& r is Ok ==> final(self).processed_commands@ == old(self).processed_commands@.insert(
                    command_id@,
                    true,
                ) && final(self).command_log@.len() == old(self).command_log@.len() + 1
                    && final(self).command_log@.drop_last() == old(self).command_log@
                    && final(self).command_log@.last().command_id == command_id
                    && final(self).command_log@.last().amount == None::<u64>
                &&& r is Err ==> *final(self) == *old(self)
            }),
    {
        let hash = Self::compute_execute_hash(
            &command_id,
            source_chain.as_str(),
            source_address.as_str(),
            payload.as_slice(),
        );
        match self.verify_gateway_signature(&hash, &gateway_signature) {
            Ed25519Check::InvalidKey => return Err(CommandRefusal::InvalidKey),
            Ed25519Check::InvalidSignature => return Err(CommandRefusal::InvalidSignature),
            Ed25519Check::Valid => {},
        }
        if !self.source_trusted(&source_chain, &source_address) {
            return Err(CommandRefusal::UntrustedSource);
        }
        self.execute(caller, command_id, source_chain, source_address, payload, gateway_signature);
        Ok(())
    }

    /// Runs a command with `amount` of a registered token from the gateway:
    /// signed by it, from the trusted source, not run before. Records and logs it.
    pub fn execute_with_token(
        &mut self,
        caller: [u8; 32],
        command_id: [u8; 32],
        source_chain: String,
        source_address: String,
        payload: Vec<u8>,
        token_symbol: String,
        amount: u64,
        gateway_signature: [u8; 64],
    )
        requires
            old(self).wf(),
            old(self).command_open(caller, command_id),
            old(self).gateway_signed(
                execute_with_token_message(
                    command_id@,
                    source_chain@,
                    source_address@,
                    payload@,
                    token_symbol@,
                    amount,
                ),
                gateway_signature,
            ),
            old(self).trusted(source_chain@, source_address@),
            old(self).token_registry@.contains_key(token_symbol@),
        ensures
            final(self).wf(),
            final(self).processed_commands@ == old(self).processed_commands@.insert(command_id@, true),
            final(self).command_log@.len() == old(self).command_log@.len() + 1,
            final(self).command_log@.drop_last() == old(self).command_log@,
            ({
                let c = final(self).command_log@.last();
                &&& c == ProcessedCommand {
                    command_id,
                    source_chain,
                    source_address,
                    payload_hash: c.payload_hash,
                    amount: Some(amount),
                }
                &&& c.payload_hash@ == pad32(payload@)
            }),
            *final(self) == (AxelarState {
                processed_commands: final(self).processed_commands,
                command_log: final(self).command_log,
                ..*old(self)
            }),
    {
        self.record_command(command_id, source_chain, source_address, &payload, Some(amount));
    }

    /// Runs a command with a token as `execute_with_token` does, checking
    /// the gateway's signature, the source and then the token first; returns
    /// the first of those to fail, changing nothing.
    pub fn try_execute_with_token(
        &mut self,
        caller: [u8; 32],
        command_id: [u8; 32],
        source_chain: String,
        source_address: String,
        payload: Vec<u8>,
        token_symbol: String,
        amount: u64,
        gateway_signature: [u8; 64],
    ) -> (r: Result<(), CommandRefusal>)
        requires
            old(self).wf(),
            old(self).command_open(caller, command_id),
        ensures
            final(self).wf(),
            ({
                let pk = old(self).gateway_pubkey@;
                let h = sha256_of(
                    execute_with_token_message(
                        command_id@,
                        source_chain@,
                        source_address@,
                        payload@,
                        token_symbol@,
                        amount,
                    ),
                );
                let signed = ed25519_key_valid(pk) && ed25519_verifies(pk, h, gateway_signature@);
                let trusted = old(self).trusted(source_chain@, source_address@);
                &&& (r == Err::<(), CommandRefusal>(CommandRefusal::InvalidKey)) <==> !ed25519_key_valid(pk)
                &&& (r == Err::<(), CommandRefusal>(CommandRefusal::InvalidSignature)) <==> (
                ed25519_key_valid(pk) && !ed25519_verifies(pk, h, gateway_signature@))
                &&& (r == Err::<(), CommandRefusal>(CommandRefusal::UntrustedSource)) <==> (signed
                    && !trusted)
                &&& (r == Err::<(), CommandRefusal>(CommandRefusal::UnregisteredToken)) <==> (signed
                    && trusted && !old(self).token_registry@.contains_key(token_symbol@))
                &&& r is Ok ==> final(self).processed_commands@ == old(self).processed_commands@.insert(
                    command_id@,
                    true,
                ) && final(self).command_log@.len() == old(self).command_log@.len() + 1
                    && final(self).command_log@.drop_last() == old(self).command_log@
                    && final(self).command_log@.last().command_id == command_id
                    && final(self).command_log@.last().amount == Some(amount)
                &&& r is Err ==> *final(self) == *old(self)
            }),
    {
        let hash = Self::compute_execute_with_token_hash(
            &command_id,
            source_chain.as_str(),
            source_address.as_str(),
            payload.as_slice(),
            token_symbol.as_str(),
            amount,
        );
        match self.verify_gateway_signature(&hash, &gateway_signature) {
            Ed25519Check::InvalidKey => return Err(CommandRefusal::InvalidKey),
            Ed25519Check::InvalidSignature => return Err(CommandRefusal::InvalidSignature),
            Ed25519Check::Valid => {},
        }
        if !self.source_trusted(&source_chain, &source_address) {
            return Err(CommandRefusal::UntrustedSource);
        }
        if !self.token_registry.contains_key(&token_symbol) {
            return Err(CommandRefusal::UnregisteredToken);
        }
        self.execute_with_token(
            caller,
            command_id,
            source_chain,
            source_address,
            payload,
            token_symbol,
            amount,
            gateway_signature,
        );
        Ok(())
    }

    /// Whether command `command_id` ran.
    pub fn is_command_processed(&self, command_id: &[u8; 32]) -> (r: bool)
        requires
            self.wf(),
        ensures
            r == self.processed_commands.get_or(command_id@, false),
    {
        self.processed_commands.get_or_false(command_id)
    }

    /// The number of transfers sent out.
    pub fn outbound_count(&self) -> (r: usize)
        ensures
            r == self.outbound_log@.len(),
    {
        self.outbound_log.len()
    }

    /// The number of commands run.
    pub fn processed_command_count(&self) -> (r: usize)
        ensures
            r == self.command_log@.len(),
    {
        self.command_log.len()
    }

    /// Whether a token is registered under `symbol`.
    pub fn is_token_registered(&self, symbol: &str) -> (r: bool)
        requires
            self.wf(),
        ensures
            r == self.token_registry@.contains_key(symbol@),
    {
        self.token_registry.contains_key(&String::from_str(symbol))
    }

    /// Whether chain `chain_name` has a trusted source.
    pub fn is_chain_trusted(&self, chain_name: &str) -> (r: bool)
        requires
            self.wf(),
        ensures
            r == self.trusted_sources@.contains_key(chain_name@),
    {
        self.trusted_sources.contains_key(&String::from_str(chain_name))
    }
}

/// A command runs once: once it is recorded as processed, as `execute` and
/// `execute_with_token` record it, it is no longer open, whoever sends it.
pub proof fn law_command_runs_once(before: AxelarState, after: AxelarState, command_id: [u8; 32], caller: [u8; 32])
    requires
        after.processed_commands@ == before.processed_commands@.insert(command_id@, true),
    ensures
        !after.command_open(caller, command_id),
{
}

} // verus!
