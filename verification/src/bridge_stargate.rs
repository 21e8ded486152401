//! A Stargate-style router: liquidity pools on this chain, LP shares, and
//! cross-chain swaps along registered chain paths, paid out of the pools.
use vstd::prelude::*;
use crate::addr::zero_address;
use crate::keymap::KeyMap;
use crate::math::{lemma_mul_u64_fits, mul_div};

verus! {

/// LayerZero chain ids (not EVM chain ids).
pub const LZ_CHAIN_ETHEREUM: u16 = 101;

pub const LZ_CHAIN_BASE: u16 = 184;

pub const LZ_CHAIN_ARBITRUM: u16 = 110;

pub const LZ_CHAIN_OPTIMISM: u16 = 111;

pub const LZ_CHAIN_DINA: u16 = 299;

/// Standard pool ids.
pub const POOL_ID_USDC: u16 = 1;

pub const POOL_ID_USDT: u16 = 2;

pub const POOL_ID_ETH: u16 = 13;

/// A liquidity pool of one token.
#[derive(Clone, Debug)]
pub struct Pool {
    pub pool_id: u16,
    pub token: [u8; 32],
    pub total_liquidity: u64,
    pub total_lp_tokens: u64,
    pub lp_balances: KeyMap<[u8; 32], u64>,
    pub shared_decimals: u8,
    pub local_decimals: u8,
    pub name: String,
    pub symbol: String,
    pub active: bool,
    /// Swap fees collected for the liquidity providers.
    pub accumulated_fees: u64,
}

/// Gas settings of a LayerZero transaction.
#[derive(Clone, Debug)]
pub struct LzTxParams {
    pub dst_gas_for_call: u64,
    pub dst_native_amount: u64,
    pub dst_native_addr: Vec<u8>,
}

/// A route from a pool here to a pool on another chain.
#[derive(Clone, Debug)]
pub struct ChainPath {
    pub src_pool_id: u16,
    pub dst_chain_id: u16,
    pub dst_pool_id: u16,
    /// What the remote chain owes this one.
    pub credit: u64,
    pub active: bool,
}

/// A cross-chain swap sent from this chain.
#[derive(Clone, Debug)]
pub struct SwapRecord {
    pub src_chain_id: u16,
    pub dst_chain_id: u16,
    pub src_pool_id: u16,
    pub dst_pool_id: u16,
    pub from: [u8; 32],
    pub to: Vec<u8>,
    pub amount_ld: u64,
    pub min_amount_ld: u64,
    pub fee: u64,
    pub nonce: u64,
}

/// The state of the router.
#[derive(Clone, Debug)]
pub struct StargateRouterState {
    pub owner: [u8; 32],
    pub chain_id: u16,
    pub lz_endpoint: [u8; 32],
    /// Pools by id, in ascending id order.
    pub pools: KeyMap<u16, Pool>,
    pub chain_paths: Vec<ChainPath>,
    /// The next nonce by destination chain.
    pub outbound_nonce: KeyMap<u16, u64>,
    pub swap_records: Vec<SwapRecord>,
    pub paused: bool,
    pub swap_fee_bps: u64,
    /// The protocol's part of the swap fee, in basis points of the swap.
    pub protocol_fee_bps: u64,
    pub protocol_fees: KeyMap<[u8; 32], u64>,
}

/// The invariant of a pool: the providers' LP balances together never
/// exceed the LP tokens issued.
pub open spec fn pool_wf(p: Pool) -> bool {
    p.lp_balances.wf() && p.lp_balances.total() <= p.total_lp_tokens
}

/// Whether `paths` hold a path from pool `src` to pool `dst_pool` on chain
/// `dst_chain` (an active one, where `need_active`).
pub open spec fn has_path(paths: Seq<ChainPath>, src: u16, dst_chain: u16, dst_pool: u16, need_active: bool) -> bool {
    exists|i: int|
        0 <= i < paths.len() && (#[trigger] paths[i]).src_pool_id == src && paths[i].dst_chain_id
            == dst_chain && paths[i].dst_pool_id == dst_pool && (need_active ==> paths[i].active)
}

/// Whether path `p` leads from pool `pool_id` to chain `chain`.
pub open spec fn path_matches(p: ChainPath, chain: u16, pool_id: u16) -> bool {
    p.dst_chain_id == chain && p.src_pool_id == pool_id
}

/// The paths once `amount` is credited to those from pool `pool_id` to chain `chain`.
pub open spec fn credited(paths: Seq<ChainPath>, chain: u16, pool_id: u16, amount: u64) -> Seq<ChainPath> {
    paths.map_values(
        |p: ChainPath|
            if path_matches(p, chain, pool_id) {
                ChainPath { credit: (p.credit + amount) as u64, ..p }
            } else {
                p
            },
    )
}

/// The big-endian value of a run of bytes.
pub open spec fn be_value(s: Seq<u8>) -> nat
    decreases s.len(),
{
    if s.len() == 0 {
        0
    } else {
        be_value(s.drop_last()) * 256 + s.last() as nat
    }
}

/// The part `bps` (in basis points) of `amount`.
pub open spec fn fee_of(amount: u64, bps: u64) -> u64 {
    ((amount as int * bps as int) / 10_000) as u64
}

/// The value stored for `k`, or zero.
pub open spec fn amount_at<K>(m: Map<K, u64>, k: K) -> u64 {
    if m.contains_key(k) {
        m[k]
    } else {
        0
    }
}

/// The big-endian value of `n` bytes of `s` from `start`.
fn read_be(s: &Vec<u8>, start: usize, n: usize) -> (r: u64)
    requires
        n <= 8,
        start + n <= s@.len(),
    ensures
        r == be_value(s@.subrange(start as int, start + n)),
{
    let len = s.len();
    let mut acc: u64 = 0;
    let mut i: usize = 0;
    while i < n
        invariant
            len == s@.len(),
            i <= n <= 8,
            start + n <= s@.len(),
            acc == be_value(s@.subrange(start as int, start + i)),
            acc < pow256(i as nat),
        decreases n - i,
    {
        proof {
            let t = s@.subrange(start as int, start + i + 1);
            assert(t.drop_last() =~= s@.subrange(start as int, start + i));
            assert(t.last() == s@[start + i]);
            assert(pow256((i + 1) as nat) == pow256(i as nat) * 256);
            assert(acc * 256 + s@[start + i] < pow256((i + 1) as nat)) by (nonlinear_arith)
                requires
                    acc < pow256(i as nat),
                    pow256((i + 1) as nat) == pow256(i as nat) * 256,
                    s@[start + i] < 256,
            ;
            assert(pow256((i + 1) as nat) <= pow256(8)) by {
                lemma_pow256_mono((i + 1) as nat, 8);
            }
            assert(pow256(8) == 0x1_0000_0000_0000_0000) by {
                reveal_with_fuel(pow256, 9);
            }
        }
        let b = s[start + i] as u64;
        assert(acc * 256 + b < 0x1_0000_0000_0000_0000);
        acc = acc * 256 + b;
        i += 1;
    }
    acc
}

/// `256` to the power `n`.
pub open spec fn pow256(n: nat) -> nat
    decreases n,
{
    if n == 0 {
        1
    } else {
        pow256((n - 1) as nat) * 256
    }
}

proof fn lemma_pow256_mono(a: nat, b: nat)
    requires
        a <= b,
    ensures
        pow256(a) <= pow256(b),
    decreases b,
{
    if a < b {
        lemma_pow256_mono(a, (b - 1) as nat);
    }
}

impl StargateRouterState {
    /// The LP tokens kept by the zero address on a pool's first deposit.
    pub const MINIMUM_LIQUIDITY: u64 = 1000;

    pub open spec fn wf(&self) -> bool {
        &&& self.pools.wf()
        &&& self.pools.sorted()
        &&& self.outbound_nonce.wf()
        &&& self.protocol_fees.wf()
        &&& forall|pid: u16| #[trigger] self.pools@.contains_key(pid) ==> pool_wf(self.pools@[pid])
    }

    /// A router on this chain with no pools, a 0.06% swap fee and a 0.01%
    /// protocol fee.
    pub fn new(owner: [u8; 32]) -> (s: Self)
        ensures
            s.wf(),
            s.owner == owner,
            s.chain_id == LZ_CHAIN_DINA,
            s.lz_endpoint@ == zero_address(),
            s.pools@ == Map::<u16, Pool>::empty(),
            s.chain_paths@ == Seq::<ChainPath>::empty(),
            s.outbound_nonce@ == Map::<u16, u64>::empty(),
            s.swap_records@ == Seq::<SwapRecord>::empty(),
            !s.paused,
            s.swap_fee_bps == 6,
            s.protocol_fee_bps == 1,
            s.protocol_fees@ == Map::<Seq<u8>, u64>::empty(),
    {
        let pools = KeyMap::new();
        proof {
            pools.lemma_new_sorted();
        }
        let zero = [0u8; 32];
        assert(zero@ =~= zero_address());
        StargateRouterState {
            owner,
            chain_id: LZ_CHAIN_DINA,
            lz_endpoint: zero,
            pools,
            chain_paths: Vec::new(),
            outbound_nonce: KeyMap::new(),
            swap_records: Vec::new(),
            paused: false,
            swap_fee_bps: 6,
            protocol_fee_bps: 1,
            protocol_fees: KeyMap::new(),
        }
    }

    /// The pool with id `pool_id`.
    pub fn get_pool(&self, pool_id: u16) -> (r: Option<&Pool>)
        requires
            self.wf(),
        ensures
            match r {
                Some(p) => self.pools@.contains_key(pool_id) && *p == self.pools@[pool_id],
                None => !self.pools@.contains_key(pool_id),
            },
    {
        self.pools.get(&pool_id)
    }

    /// The ids of all pools, in ascending order.
    pub fn get_pool_ids(&self) -> (r: Vec<u16>)
        requires
            self.wf(),
        ensures
            r@ == self.pools.key_seq(),
            forall|i: int, j: int| 0 <= i < j < r@.len() ==> r@[i] < r@[j],
    {
        let n = self.pools.len();
        let mut r: Vec<u16> = Vec::new();
        let mut i: usize = 0;
        while i < n
            invariant
                i <= n,
                n == self.pools.entries().len(),
                r@ == self.pools.key_seq().take(i as int),
            decreases n - i,
        {
            r.push(*self.pools.key_at(i));
            proof {
                assert(self.pools.key_seq().take(i + 1) =~= self.pools.key_seq().take(i as int).push(
                    self.pools.entries()[i as int].0,
                ));
            }
            i += 1;
        }
        proof {
            assert(self.pools.key_seq().take(n as int) =~= self.pools.key_seq());
        }
        r
    }

    /// The LP balance of `provider` in a pool, zero where there is none.
    pub fn lp_balance_of(&self, pool_id: u16, provider: &[u8; 32]) -> (r: u64)
        requires
            self.wf(),
        ensures
            r == (if self.pools@.contains_key(pool_id) {
                self.pools@[pool_id].lp_balances.get_or(provider@, 0)
            } else {
                0
            }),
    {
        match self.pools.get(&pool_id) {
            Some(p) => {
                proof {
                    assert(self.pools@.contains_key(pool_id));
                }
                p.lp_balances.get_or_zero(provider)
            },
            None => 0,
        }
    }

    /// The next outbound nonce for a destination chain.
    pub fn get_nonce(&self, dst_chain_id: u16) -> (r: u64)
        requires
            self.wf(),
        ensures
            r == self.outbound_nonce.get_or(dst_chain_id, 0),
    {
        self.outbound_nonce.get_or_zero(&dst_chain_id)
    }

    /// Creates an active, empty pool for a token; its id is one more than the
    /// number of pools. The owner only.
    pub fn create_pool(
        &mut self,
        caller: [u8; 32],
        token_address: [u8; 32],
        shared_decimals: u8,
        local_decimals: u8,
        name: String,
        symbol: String,
    ) -> (r: u16)
        requires
            old(self).wf(),
            caller == old(self).owner,
            shared_decimals <= local_decimals,
            (old(self).pools@.len() as u16) < u16::MAX,
            !old(self).pools@.contains_key(((old(self).pools@.len() as u16) + 1) as u16),
        ensures
            final(self).wf(),
            r == ((old(self).pools@.len() as u16) + 1) as u16,
            final(self).pools@.remove(r) == old(self).pools@,
            final(self).pools@.contains_key(r),
            ({
                let p = final(self).pools@[r];
                &&& p == Pool {
                    pool_id: r,
                    token: token_address,
                    total_liquidity: 0,
                    total_lp_tokens: 0,
                    lp_balances: p.lp_balances,
                    shared_decimals,
                    local_decimals,
                    name,
                    symbol,
                    active: true,
                    accumulated_fees: 0,
                }
                &&& p.lp_balances@ == Map::<Seq<u8>, u64>::empty()
            }),
            *final(self) == (StargateRouterState { pools: final(self).pools, ..*old(self) }),
    {
        let count = self.pools.len();
        let pool_id = (count as u16) + 1;
        let pool = Pool {
            pool_id,
            token: token_address,
            total_liquidity: 0,
            total_lp_tokens: 0,
            lp_balances: KeyMap::new(),
            shared_decimals,
            local_decimals,
            name,
            symbol,
            active: true,
            accumulated_fees: 0,
        };
        assert(pool.lp_balances.total() == 0);
        let ghost expected = pool;
        self.pools.insert_sorted(pool_id, pool);
        proof {
            assert(self.pools@.remove(pool_id) =~= old(self).pools@);
            assert forall|pid: u16| #[trigger] self.pools@.contains_key(pid) implies pool_wf(self.pools@[pid]) by {
                if pid != pool_id {
                    assert(old(self).pools@.contains_key(pid));
                }
            }
        }
        pool_id
    }

    /// Whether the paths hold a route from `src_pool_id` to `dst_pool_id` on
    /// `dst_chain_id` (an active one, where `need_active`).
    fn path_exists(&self, src_pool_id: u16, dst_chain_id: u16, dst_pool_id: u16, need_active: bool) -> (r: bool)
        ensures
            r == has_path(self.chain_paths@, src_pool_id, dst_chain_id, dst_pool_id, need_active),
    {
        let mut i: usize = 0;
        while i < self.chain_paths.len()
            invariant
                i <= self.chain_paths@.len(),
                forall|j: int|
                    0 <= j < i ==> !((#[trigger] self.chain_paths@[j]).src_pool_id == src_pool_id
                        && self.chain_paths@[j].dst_chain_id == dst_chain_id
                        && self.chain_paths@[j].dst_pool_id == dst_pool_id && (need_active
                        ==> self.chain_paths@[j].active)),
            decreases self.chain_paths@.len() - i,
        {
            let p = &self.chain_paths[i];
            if p.src_pool_id == src_pool_id && p.dst_chain_id == dst_chain_id && p.dst_pool_id
                == dst_pool_id && (!need_active || p.active) {
                return true;
            }
            i += 1;
        }
        false
    }

    /// Registers a new path from an existing pool; the owner only.
    pub fn add_chain_path(&mut self, caller: [u8; 32], src_pool_id: u16, dst_chain_id: u16, dst_pool_id: u16)
        requires
            caller == old(self).owner,
            old(self).pools@.contains_key(src_pool_id),
            !has_path(old(self).chain_paths@, src_pool_id, dst_chain_id, dst_pool_id, false),
        ensures
            final(self).chain_paths@ == old(self).chain_paths@.push(
                ChainPath { src_pool_id, dst_chain_id, dst_pool_id, credit: 0, active: true },
            ),
            *final(self) == (StargateRouterState { chain_paths: final(self).chain_paths, ..*old(self) }),
    {
        self.chain_paths.push(ChainPath { src_pool_id, dst_chain_id, dst_pool_id, credit: 0, active: true });
    }

    /// The index of an existing pool among the pools' entries.
    fn pool_index(&self, pool_id: u16) -> (i: usize)
        requires
            self.pools.wf(),
            self.pools@.contains_key(pool_id),
        ensures
            i < self.pools.entries().len(),
            self.pools.entries()[i as int].0 == pool_id,
            self.pools.entries()[i as int].1 == self.pools@[pool_id],
    {
        match self.pools.find(&pool_id) {
            Some(i) => {
                proof {
                    self.pools.lemma_entry(i as int);
                }
                i
            },
            None => {
                assert(false);
                0
            },
        }
    }

    /// Deposits `amount` into a pool for the caller and returns the LP
    /// tokens credited: on a pool without liquidity, the amount less
    /// `MINIMUM_LIQUIDITY`, which goes to the zero address; else the share of
    /// the pool the amount buys.
    pub fn add_liquidity(&mut self, caller: [u8; 32], pool_id: u16, amount: u64) -> (r: u64)
        requires
            old(self).wf(),
            !old(self).paused,
            amount > 0,
            old(self).pools@.contains_key(pool_id),
            ({
                let p = old(self).pools@[pool_id];
                let lp = ((amount as int * p.total_lp_tokens as int) / (p.total_liquidity as int)) as u64;
                &&& p.active
                &&& p.total_liquidity == 0 ==> amount > 1000 && p.total_lp_tokens + amount <= u64::MAX
                &&& p.total_liquidity > 0 ==> {
                    &&& lp > 0
                    &&& p.total_liquidity + amount <= u64::MAX
                    &&& p.total_lp_tokens + lp <= u64::MAX
                    &&& p.lp_balances.get_or(caller@, 0) + lp <= u64::MAX
                }
            }),
        ensures
            final(self).wf(),
            ({
                let p = old(self).pools@[pool_id];
                let q = final(self).pools@[pool_id];
                let lp = ((amount as int * p.total_lp_tokens as int) / (p.total_liquidity as int)) as u64;
                &&& final(self).pools@ == old(self).pools@.insert(pool_id, q)
                &&& p.total_liquidity == 0 ==> {
                    &&& r == amount - 1000
                    &&& q == Pool {
                        total_liquidity: amount,
                        total_lp_tokens: (p.total_lp_tokens + amount) as u64,
                        lp_balances: q.lp_balances,
                        ..p
                    }
                    &&& q.lp_balances@ == p.lp_balances@.insert(zero_address(), 1000).insert(
                        caller@,
                        (amount - 1000) as u64,
                    )
                }
                &&& p.total_liquidity > 0 ==> {
                    &&& r == lp
                    &&& q == Pool {
                        total_liquidity: (p.total_liquidity + amount) as u64,
                        total_lp_tokens: (p.total_lp_tokens + lp) as u64,
                        lp_balances: q.lp_balances,
                        ..p
                    }
                    &&& q.lp_balances@ == p.lp_balances@.insert(
                        caller@,
                        (p.lp_balances.get_or(caller@, 0) + lp) as u64,
                    )
                }
            }),
            *final(self) == (StargateRouterState { pools: final(self).pools, ..*old(self) }),
    {
        let i = self.pool_index(pool_id);
        let ghost before = self.pools;
        let lp_tokens = {
            let pool = self.pools.value_mut_at(i);
            if pool.total_liquidity == 0 {
                let minted = amount;
                let zero_addr = [0u8; 32];
                assert(zero_addr@ =~= zero_address());
                pool.total_liquidity = pool.total_liquidity + amount;
                pool.total_lp_tokens = pool.total_lp_tokens + minted;
                let ghost lb0 = pool.lp_balances;
                pool.lp_balances.insert(zero_addr, Self::MINIMUM_LIQUIDITY);
                let ghost lb1 = pool.lp_balances;
                let caller_lp = minted - Self::MINIMUM_LIQUIDITY;
                pool.lp_balances.insert(caller, caller_lp);
                proof {
                    KeyMap::lemma_total_insert(lb0, lb1, zero_addr, 1000);
                    KeyMap::lemma_total_insert(lb1, pool.lp_balances, caller, caller_lp);
                    lb0.lemma_total_ge(zero_addr@);
                    lb1.lemma_total_ge(caller@);
                }
                caller_lp
            } else {
                proof {
                    lemma_mul_u64_fits(amount, pool.total_lp_tokens);
                }
                let lp_tokens = mul_div(amount, pool.total_lp_tokens, pool.total_liquidity);
                pool.total_liquidity = pool.total_liquidity + amount;
                pool.total_lp_tokens = pool.total_lp_tokens + lp_tokens;
                let current_lp = pool.lp_balances.get_or_zero(&caller);
                let ghost lb0 = pool.lp_balances;
                pool.lp_balances.insert(caller, current_lp + lp_tokens);
                proof {
                    KeyMap::lemma_total_insert(lb0, pool.lp_balances, caller, (current_lp + lp_tokens) as u64);
                }
                lp_tokens
            }
        };
        proof {
            KeyMap::lemma_set_at(before, self.pools, i as int);
            assert forall|pid: u16| #[trigger] self.pools@.contains_key(pid) implies pool_wf(self.pools@[pid]) by {
                if pid != pool_id {
                    assert(old(self).pools@.contains_key(pid));
                }
            }
        }
        lp_tokens
    }

    /// Burns `lp_amount` of the caller's LP tokens and returns their share
    /// of the pool's liquidity; a balance that reaches zero is dropped.
    pub fn remove_liquidity(&mut self, caller: [u8; 32], pool_id: u16, lp_amount: u64) -> (r: u64)
        requires
            old(self).wf(),
            !old(self).paused,
            lp_amount > 0,
            old(self).pools@.contains_key(pool_id),
            old(self).pools@[pool_id].lp_balances.get_or(caller@, 0) >= lp_amount,
        ensures
            final(self).wf(),
            ({
                let p = old(self).pools@[pool_id];
                let q = final(self).pools@[pool_id];
                let bal = p.lp_balances.get_or(caller@, 0);
                &&& r == ((lp_amount as int * p.total_liquidity as int) / (p.total_lp_tokens as int)) as u64
                &&& final(self).pools@ == old(self).pools@.insert(pool_id, q)
                &&& q == Pool {
                    total_liquidity: (p.total_liquidity - r) as u64,
                    total_lp_tokens: (p.total_lp_tokens - lp_amount) as u64,
                    lp_balances: q.lp_balances,
                    ..p
                }
                &&& bal > lp_amount ==> q.lp_balances@ == p.lp_balances@.insert(
                    caller@,
                    (bal - lp_amount) as u64,
                )
                &&& bal == lp_amount ==> q.lp_balances@ == p.lp_balances@.remove(caller@)
            }),
            *final(self) == (StargateRouterState { pools: final(self).pools, ..*old(self) }),
    {
        let i = self.pool_index(pool_id);
        let ghost before = self.pools;
        let token_amount = {
            let pool = self.pools.value_mut_at(i);
            let caller_lp = pool.lp_balances.get_or_zero(&caller);
            proof {
                pool.lp_balances.lemma_total_ge(caller@);
            }
            let token_amount = mul_div(lp_amount, pool.total_liquidity, pool.total_lp_tokens);
            proof {
                assert((lp_amount as int * pool.total_liquidity as int) / (pool.total_lp_tokens as int)
                    <= pool.total_liquidity) by (nonlinear_arith)
                    requires
                        lp_amount <= pool.total_lp_tokens,
                        pool.total_lp_tokens > 0,
                ;
            }
            pool.total_liquidity = pool.total_liquidity - token_amount;
            pool.total_lp_tokens = pool.total_lp_tokens - lp_amount;
            let ghost lb0 = pool.lp_balances;
            pool.lp_balances.insert(caller, caller_lp - lp_amount);
            proof {
                KeyMap::lemma_total_insert(lb0, pool.lp_balances, caller, (caller_lp - lp_amount) as u64);
            }
            if caller_lp - lp_amount == 0 {
                let ghost lb1 = pool.lp_balances;
                pool.lp_balances.remove(&caller);
                proof {
                    KeyMap::lemma_total_remove(lb1, pool.lp_balances, caller);
                    assert(pool.lp_balances@ =~= lb0@.remove(caller@));
                }
            }
            token_amount
        };
        proof {
            KeyMap::lemma_set_at(before, self.pools, i as int);
            assert forall|pid: u16| #[trigger] self.pools@.contains_key(pid) implies pool_wf(self.pools@[pid]) by {
                if pid != pool_id {
                    assert(old(self).pools@.contains_key(pid));
                }
            }
        }
        token_amount
    }

    /// Sends `amount_ld` from a pool here to a pool on another chain along an
    /// active path: the pool pays out the amount less the swap fee, keeps the
    /// fee for its providers, and the protocol takes its part. Returns the
    /// nonce of the message.
    pub fn swap(
        &mut self,
        caller: [u8; 32],
        dst_chain_id: u16,
        src_pool_id: u16,
        dst_pool_id: u16,
        refund_address: [u8; 32],
        amount_ld: u64,
        min_amount_ld: u64,
        lz_tx_params: LzTxParams,
        to: Vec<u8>,
        payload: Vec<u8>,
    ) -> (r: u64)
        requires
            old(self).wf(),
            !old(self).paused,
            amount_ld > 0,
            has_path(old(self).chain_paths@, src_pool_id, dst_chain_id, dst_pool_id, true),
            old(self).pools@.contains_key(src_pool_id),
            ({
                let p = old(self).pools@[src_pool_id];
                let fee = fee_of(amount_ld, old(self).swap_fee_bps);
                let pf = ((fee as int * old(self).protocol_fee_bps as int) / (old(self).swap_fee_bps as int)) as u64;
                &&& p.active
                &&& p.total_liquidity >= amount_ld
                &&& fee <= amount_ld
                &&& amount_ld - fee >= min_amount_ld
                &&& p.accumulated_fees + fee <= u64::MAX
                &&& old(self).swap_fee_bps > 0
                &&& old(self).protocol_fees.get_or(p.token@, 0) + pf <= u64::MAX
                &&& old(self).outbound_nonce.get_or(dst_chain_id, 0) < u64::MAX
            }),
        ensures
            final(self).wf(),
            ({
                let p = old(self).pools@[src_pool_id];
                let fee = fee_of(amount_ld, old(self).swap_fee_bps);
                let pf = ((fee as int * old(self).protocol_fee_bps as int) / (old(self).swap_fee_bps as int)) as u64;
                &&& r == old(self).outbound_nonce.get_or(dst_chain_id, 0)
                &&& final(self).pools@ == old(self).pools@.insert(
                    src_pool_id,
                    Pool {
                        total_liquidity: (p.total_liquidity - (amount_ld - fee)) as u64,
                        accumulated_fees: (p.accumulated_fees + fee) as u64,
                        ..p
                    },
                )
                &&& final(self).protocol_fees@ == old(self).protocol_fees@.insert(
                    p.token@,
                    (old(self).protocol_fees.get_or(p.token@, 0) + pf) as u64,
                )
                &&& final(self).outbound_nonce@ == old(self).outbound_nonce@.insert(dst_chain_id, (r + 1) as u64)
                &&& final(self).swap_records@ == old(self).swap_records@.push(
                    SwapRecord {
                        src_chain_id: old(self).chain_id,
                        dst_chain_id,
                        src_pool_id,
                        dst_pool_id,
                        from: caller,
                        to,
                        amount_ld,
                        min_amount_ld,
                        fee,
                        nonce: r,
                    },
                )
            }),
            *final(self) == (StargateRouterState {
                pools: final(self).pools,
                protocol_fees: final(self).protocol_fees,
                outbound_nonce: final(self).outbound_nonce,
                swap_records: final(self).swap_records,
                ..*old(self)
            }),
    {
        let i = self.pool_index(src_pool_id);
        let ghost before = self.pools;
        let fee = mul_div(amount_ld, self.swap_fee_bps, 10_000);
        let amount_after_fee = amount_ld - fee;
        let token = {
            let pool = self.pools.value_mut_at(i);
            pool.total_liquidity = pool.total_liquidity - amount_after_fee;
            pool.accumulated_fees = pool.accumulated_fees + fee;
            pool.token
        };
        proof {
            KeyMap::lemma_set_at(before, self.pools, i as int);
            assert forall|pid: u16| #[trigger] self.pools@.contains_key(pid) implies pool_wf(self.pools@[pid]) by {
                if pid != src_pool_id {
                    assert(old(self).pools@.contains_key(pid));
                }
            }
        }
        let protocol_fee = mul_div(fee, self.protocol_fee_bps, self.swap_fee_bps);
        let current_protocol = self.protocol_fees.get_or_zero(&token);
        self.protocol_fees.insert(token, current_protocol + protocol_fee);
        let nonce = self.outbound_nonce.get_or_zero(&dst_chain_id);
        self.outbound_nonce.insert(dst_chain_id, nonce + 1);
        self.swap_records.push(
            SwapRecord {
                src_chain_id: self.chain_id,
                dst_chain_id,
                src_pool_id,
                dst_pool_id,
                from: caller,
                to,
                amount_ld,
                min_amount_ld,
                fee,
                nonce,
            },
        );
        nonce
    }

    /// Takes in a message from another chain. A payload of at least 42 bytes
    /// names a pool (2 bytes), an amount (8 bytes) and a recipient (32
    /// bytes), all big-endian: the amount is added to the pool, where it
    /// exists, and credited to every path from that pool to the sending
    /// chain. A shorter payload changes nothing.
    pub fn receive_payload(&mut self, src_chain_id: u16, src_address: Vec<u8>, nonce: u64, payload: Vec<u8>)
        requires
            old(self).wf(),
            !old(self).paused,
            payload@.len() >= 42 ==> ({
                let pool_id = be_value(payload@.subrange(0, 2)) as u16;
                let amount = be_value(payload@.subrange(2, 10)) as u64;
                &&& old(self).pools@.contains_key(pool_id) ==> old(self).pools@[pool_id].total_liquidity
                    + amount <= u64::MAX
                &&& forall|i: int|
                    0 <= i < old(self).chain_paths@.len() && path_matches(
                        #[trigger] old(self).chain_paths@[i],
                        src_chain_id,
                        pool_id,
                    ) ==> old(self).chain_paths@[i].credit + amount <= u64::MAX
            }),
        ensures
            final(self).wf(),
            payload@.len() < 42 ==> *final(self) == *old(self),
            payload@.len() >= 42 ==> ({
                let pool_id = be_value(payload@.subrange(0, 2)) as u16;
                let amount = be_value(payload@.subrange(2, 10)) as u64;
                &&& old(self).pools@.contains_key(pool_id) ==> final(self).pools@ == old(self).pools@.insert(
                    pool_id,
                    Pool {
                        total_liquidity: (old(self).pools@[pool_id].total_liquidity + amount) as u64,
                        ..old(self).pools@[pool_id]
                    },
                )
                &&& !old(self).pools@.contains_key(pool_id) ==> final(self).pools@ == old(self).pools@
                &&& final(self).chain_paths@ == credited(old(self).chain_paths@, src_chain_id, pool_id, amount)
                &&& *final(self) == (StargateRouterState {
                    pools: final(self).pools,
                    chain_paths: final(self).chain_paths,
                    ..*old(self)
                })
            }),
    {
        if payload.len() >= 42 {
            let pool_id = read_be(&payload, 0, 2) as u16;
            let amount = read_be(&payload, 2, 8);
            match self.pools.find(&pool_id) {
                Some(i) => {
                    let ghost before = self.pools;
                    proof {
                        before.lemma_entry(i as int);
                    }
                    {
                        let pool = self.pools.value_mut_at(i);
                        pool.total_liquidity = pool.total_liquidity + amount;
                    }
                    proof {
                        KeyMap::lemma_set_at(before, self.pools, i as int);
                        assert forall|pid: u16| #[trigger] self.pools@.contains_key(pid) implies pool_wf(
                            self.pools@[pid],
                        ) by {
                            if pid != pool_id {
                                assert(old(self).pools@.contains_key(pid));
                            }
                        }
                    }
                },
                None => {},
            }
            let ghost paths0 = self.chain_paths@;
            let ghost mid = *self;
            let mut k: usize = 0;
            while k < self.chain_paths.len()
                invariant
                    *self == (StargateRouterState { chain_paths: self.chain_paths, ..mid }),
                    mid.wf(),
                    k <= self.chain_paths@.len(),
                    self.chain_paths@.len() == paths0.len(),
                    paths0 == old(self).chain_paths@,
                    forall|j: int|
                        0 <= j < paths0.len() && path_matches(#[trigger] paths0[j], src_chain_id, pool_id)
                            ==> paths0[j].credit + amount <= u64::MAX,
                    forall|j: int|
                        0 <= j < k ==> #[trigger] self.chain_paths@[j] == credited(
                            paths0,
                            src_chain_id,
                            pool_id,
                            amount,
                        )[j],
                    forall|j: int| k <= j < paths0.len() ==> #[trigger] self.chain_paths@[j] == paths0[j],
                decreases paths0.len() - k,
            {
                let p = &self.chain_paths[k];
                if p.dst_chain_id == src_chain_id && p.src_pool_id == pool_id {
                    let updated = ChainPath {
                        src_pool_id: p.src_pool_id,
                        dst_chain_id: p.dst_chain_id,
                        dst_pool_id: p.dst_pool_id,
                        credit: p.credit + amount,
                        active: p.active,
                    };
                    self.chain_paths.set(k, updated);
                }
                k += 1;
            }
            proof {
                assert(self.chain_paths@ =~= credited(paths0, src_chain_id, pool_id, amount));
            }
        }
    }

    /// Sets the LayerZero endpoint; the owner only.
    pub fn set_lz_endpoint(&mut self, caller: [u8; 32], endpoint: [u8; 32])
        requires
            caller == old(self).owner,
        ensures
            *final(self) == (StargateRouterState { lz_endpoint: endpoint, ..*old(self) }),
    {
        self.lz_endpoint = endpoint;
    }

    /// Sets the swap fee, at most 10%; the owner only.
    pub fn set_swap_fee(&mut self, caller: [u8; 32], fee_bps: u64)
        requires
            caller == old(self).owner,
            fee_bps <= 1000,
        ensures
            *final(self) == (StargateRouterState { swap_fee_bps: fee_bps, ..*old(self) }),
    {
        self.swap_fee_bps = fee_bps;
    }

    pub fn pause(&mut self, caller: [u8; 32])
        requires
            caller == old(self).owner,
        ensures
            *final(self) == (StargateRouterState { paused: true, ..*old(self) }),
    {
        self.paused = true;
    }

    pub fn unpause(&mut self, caller: [u8; 32])
        requires
            caller == old(self).owner,
        ensures
            *final(self) == (StargateRouterState { paused: false, ..*old(self) }),
    {
        self.paused = false;
    }

    /// Hands the router to `new_owner`; the owner only.
    pub fn transfer_ownership(&mut self, caller: [u8; 32], new_owner: [u8; 32])
        requires
            caller == old(self).owner,
        ensures
            *final(self) == (StargateRouterState { owner: new_owner, ..*old(self) }),
    {
        self.owner = new_owner;
    }

    /// Pays out the protocol fees collected in `token`; the owner only.
    pub fn withdraw_protocol_fees(&mut self, caller: [u8; 32], token: [u8; 32]) -> (r: u64)
        requires
            old(self).wf(),
            caller == old(self).owner,
        ensures
            final(self).wf(),
            r == old(self).protocol_fees.get_or(token@, 0),
            final(self).protocol_fees@ == old(self).protocol_fees@.insert(token@, 0),
            *final(self) == (StargateRouterState { protocol_fees: final(self).protocol_fees, ..*old(self) }),
    {
        let amount = self.protocol_fees.get_or_zero(&token);
        self.protocol_fees.insert(token, 0);
        amount
    }
}

/// Adding liquidity to a pool that holds some and then removing the LP
/// tokens just minted returns at most what was added: rounding never
/// favours the provider.
pub proof fn law_add_then_remove_no_profit(liquidity: u64, lp_tokens: u64, amount: u64)
    requires
        liquidity > 0,
    ensures
        ({
            let lp = (amount as int * lp_tokens as int) / (liquidity as int);
            lp > 0 ==> (lp * (liquidity + amount)) / (lp_tokens + lp) <= amount
        }),
{
    let l = liquidity as int;
    let t = lp_tokens as int;
    let a = amount as int;
    let lp = (a * t) / l;
    if lp > 0 {
        assert(lp * l <= a * t) by (nonlinear_arith)
            requires
                lp == (a * t) / l,
                l > 0,
        ;
        assert(lp * (l + a) <= a * (t + lp)) by (nonlinear_arith)
            requires
                lp * l <= a * t,
        ;
        assert((lp * (l + a)) / (t + lp) <= a) by (nonlinear_arith)
            requires
                lp * (l + a) <= a * (t + lp),
                t + lp > 0,
                a >= 0,
        ;
    }
}

} // verus!
