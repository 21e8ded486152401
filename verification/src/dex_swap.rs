//! A constant-product market maker: pools of two tokens, liquidity shares,
//! swaps priced by `x * y = k`, and routes through one or two pools.
use vstd::prelude::*;
use crate::keymap::{KeyMap, OrdKey, str_eq, str_gt};
use crate::math::{lemma_mul_u64_fits, mul_div};

verus! {

/// A liquidity pool for a pair of tokens, `token_a` ordered before `token_b`.
#[derive(Clone, Debug)]
pub struct Pool {
    pub id: u64,
    pub token_a: String,
    pub token_b: String,
    pub reserve_a: u64,
    pub reserve_b: u64,
    pub total_lp_tokens: u64,
    pub lp_balances: KeyMap<String, u64>,
    pub fee_bps: u64,
    pub cumulative_volume: u64,
    pub paused: bool,
}

/// The price of a swap, as `get_quote` reports it.
#[derive(Clone, Debug, PartialEq)]
pub struct Quote {
    pub input_token: String,
    pub input_amount: u64,
    pub output_token: String,
    pub output_amount: u64,
    pub price_impact_bps: u64,
    pub fee_amount: u64,
}

/// The state of the exchange.
#[derive(Clone, Debug)]
pub struct DexState {
    pub pools: KeyMap<u64, Pool>,
    /// Pool ids by ordered token pair, in ascending pair order.
    pub pool_lookup: KeyMap<(String, String), u64>,
    pub next_pool_id: u64,
    pub owner: String,
    pub protocol_fee_bps: u64,
    pub protocol_fees: KeyMap<String, u64>,
}

/// What an operation of the exchange reports.
#[derive(Clone, Debug, PartialEq)]
pub enum DexEvent {
    PoolCreated { pool_id: u64, token_a: String, token_b: String },
    LiquidityAdded { pool_id: u64, provider: String, amount_a: u64, amount_b: u64, lp_tokens: u64 },
    LiquidityRemoved {
        pool_id: u64,
        provider: String,
        amount_a: u64,
        amount_b: u64,
        lp_burned: u64,
    },
    Swap {
        pool_id: u64,
        trader: String,
        input_token: String,
        input_amount: u64,
        output_token: String,
        output_amount: u64,
    },
    FeeCollected { token: String, amount: u64, collector: String },
    PoolPaused { pool_id: u64 },
    PoolUnpaused { pool_id: u64 },
}

/// The pair of two tokens in canonical order, so that both orders name the same pool.
pub open spec fn ordered(a: Seq<char>, b: Seq<char>) -> (Seq<char>, Seq<char>) {
    if String::key_lt(b, a) {
        (b, a)
    } else {
        (a, b)
    }
}

/// Whether `r` is the integer square root of `n`.
pub open spec fn is_floor_sqrt(r: int, n: int) -> bool {
    r >= 0 && r * r <= n && n < (r + 1) * (r + 1)
}

/// The integer square root of `n`.
pub open spec fn floor_sqrt(n: int) -> int {
    choose|r: int| is_floor_sqrt(r, n)
}

/// The value of a map at `k`, or zero.
pub open spec fn amount_at(m: Map<Seq<char>, u64>, k: Seq<char>) -> u64 {
    if m.contains_key(k) {
        m[k]
    } else {
        0
    }
}

/// The invariant of a pool: its LP tokens are exactly the providers'
/// balances, and while any are outstanding both reserves are positive.
pub open spec fn pool_wf(p: Pool) -> bool {
    &&& p.lp_balances.wf()
    &&& p.lp_balances.total() == p.total_lp_tokens
    &&& p.total_lp_tokens > 0 ==> p.reserve_a > 0 && p.reserve_b > 0
}

/// The LP tokens minted for depositing `amount_a` and `amount_b` into `p`:
/// the square root of their product for the first deposit, else the smaller
/// of the two proportional shares.
pub open spec fn lp_minted(p: Pool, amount_a: u64, amount_b: u64) -> u64 {
    if p.total_lp_tokens == 0 {
        floor_sqrt(amount_a as int * amount_b as int) as u64
    } else {
        let lp_a = (amount_a as int * p.total_lp_tokens as int) / (p.reserve_a as int);
        let lp_b = (amount_b as int * p.total_lp_tokens as int) / (p.reserve_b as int);
        (if lp_a < lp_b {
            lp_a
        } else {
            lp_b
        }) as u64
    }
}

/// The share of `reserve` that `lp` of `total` LP tokens stand for.
pub open spec fn lp_share(lp: u64, reserve: u64, total: u64) -> u64 {
    ((lp as int * reserve as int) / (total as int)) as u64
}

/// One step of the Babylonian method never goes below a number whose square
/// is at most `n`.
proof fn lemma_babylonian_step(n: int, x: int, r: int)
    requires
        x >= 1,
        r >= 0,
        r * r <= n,
    ensures
        (x + n / x) / 2 >= r,
{
    let q = n / x;
    assert(q * x <= n && n < (q + 1) * x) by (nonlinear_arith)
        requires
            x >= 1,
            q == n / x,
    ;
    if x + q < 2 * r {
        assert((2 * r - x) * x <= r * r) by (nonlinear_arith);
        assert((q + 1) * x <= (2 * r - x) * x) by (nonlinear_arith)
            requires
                q + 1 <= 2 * r - x,
                x >= 1,
        ;
        assert(false);
    }
}

/// The integer square root of `n`, by the Babylonian method.
pub fn isqrt(n: u128) -> (r: u64)
    requires
        n < u128::MAX,
    ensures
        is_floor_sqrt(r as int, n as int),
{
    if n == 0 {
        assert(is_floor_sqrt(0, 0)) by (nonlinear_arith);
        return 0;
    }
    let mut x: u128 = n;
    let mut y: u128 = (x + 1) / 2;
    proof {
        assert(n / n == 1) by (nonlinear_arith)
            requires
                n >= 1,
        ;
        assert forall|r: int| r >= 0 && #[trigger] (r * r) <= n implies r <= n by {
            assert(r <= r * r || r == 0) by (nonlinear_arith)
                requires
                    r >= 0,
            ;
        }
    }
    while y < x
        invariant
            1 <= x <= n,
            n < u128::MAX,
            y == (x + n / x) / 2,
            forall|r: int| r >= 0 && #[trigger] (r * r) <= n ==> r <= x,
        decreases x,
    {
        proof {
            assert forall|r: int| r >= 0 && #[trigger] (r * r) <= n implies r <= y by {
                lemma_babylonian_step(n as int, x as int, r);
            }
            assert(y >= 1) by {
                assert(1 * 1 <= n);
            }
            assert(n / y <= n) by (nonlinear_arith)
                requires
                    y >= 1,
            ;
            // The next step stays in range: y is at most (n + 1) / 2 and n / y
            // at most n / 1.
            assert(y + n / y <= u128::MAX) by (nonlinear_arith)
                requires
                    y < x,
                    x <= n,
                    y == (x + n / x) / 2,
                    n < u128::MAX,
                    y >= 1,
                    n / y <= n,
                    n / x <= n,
            ;
        }
        x = y;
        y = (x + n / x) / 2;
    }
    proof {
        assert(x * x <= n) by (nonlinear_arith)
            requires
                y >= x,
                y == (x + n / x) / 2,
                x >= 1,
        ;
        assert((x + 1) * (x + 1) > n) by {
            if (x + 1) * (x + 1) <= n {
                assert((x + 1) as int <= x);
            }
        }
        assert(x <= u64::MAX) by (nonlinear_arith)
            requires
                x * x <= n,
                n < u128::MAX,
        ;
    }
    x as u64
}

/// The two tokens in canonical order.
pub fn ordered_pair(a: &str, b: &str) -> (r: (String, String))
    ensures
        (r.0@, r.1@) == ordered(a@, b@),
{
    if str_gt(a, b) {
        (String::from_str(b), String::from_str(a))
    } else {
        (String::from_str(a), String::from_str(b))
    }
}

impl DexState {
    pub open spec fn wf(&self) -> bool {
        &&& self.pools.wf()
        &&& self.pool_lookup.wf()
        &&& self.pool_lookup.sorted()
        &&& self.protocol_fees.wf()
        &&& forall|pid: u64| #[trigger]
            self.pools@.contains_key(pid) ==> pool_wf(self.pools@[pid]) && pid < self.next_pool_id
        &&& forall|k: (Seq<char>, Seq<char>)| #[trigger]
            self.pool_lookup@.contains_key(k) ==> {
                let p = self.pools@[self.pool_lookup@[k]];
                &&& self.pools@.contains_key(self.pool_lookup@[k])
                &&& p.token_a@ == k.0
                &&& p.token_b@ == k.1
            }
    }

    /// An exchange with no pools.
    pub fn new(owner: String) -> (d: Self)
        ensures
            d.wf(),
            d.pools@ == Map::<u64, Pool>::empty(),
            d.pool_lookup@ == Map::<(Seq<char>, Seq<char>), u64>::empty(),
            d.next_pool_id == 1,
            d.owner == owner,
            d.protocol_fee_bps == 0,
            d.protocol_fees@ == Map::<Seq<char>, u64>::empty(),
    {
        let pool_lookup = KeyMap::new();
        proof {
            pool_lookup.lemma_new_sorted();
        }
        DexState {
            pools: KeyMap::new(),
            pool_lookup,
            next_pool_id: 1,
            owner,
            protocol_fee_bps: 0,
            protocol_fees: KeyMap::new(),
        }
    }

    /// Creates an empty, fee-free pool for two different tokens that have none yet.
    pub fn create_pool(&mut self, token_a: &str, token_b: &str) -> (r: DexEvent)
        requires
            old(self).wf(),
            token_a@ != token_b@,
            !old(self).pool_lookup@.contains_key(ordered(token_a@, token_b@)),
            old(self).next_pool_id < u64::MAX,
        ensures
            final(self).wf(),
            ({
                let id = old(self).next_pool_id;
                let key = ordered(token_a@, token_b@);
                let p = final(self).pools@[id];
                &&& r matches DexEvent::PoolCreated { pool_id, token_a: a, token_b: b } && pool_id
                    == id && a@ == key.0 && b@ == key.1
                &&& final(self).next_pool_id == id + 1
                &&& final(self).pools@.contains_key(id)
                &&& final(self).pools@.remove(id) == old(self).pools@
                &&& p.id == id && p.token_a@ == key.0 && p.token_b@ == key.1
                &&& p.reserve_a == 0 && p.reserve_b == 0 && p.total_lp_tokens == 0
                &&& p.lp_balances@ == Map::<Seq<char>, u64>::empty()
                &&& p.fee_bps == 0 && p.cumulative_volume == 0 && !p.paused
                &&& final(self).pool_lookup@ == old(self).pool_lookup@.insert(key, id)
            }),
            final(self).owner == old(self).owner,
            final(self).protocol_fee_bps == old(self).protocol_fee_bps,
            final(self).protocol_fees == old(self).protocol_fees,
    {
        let key = ordered_pair(token_a, token_b);
        let id = self.next_pool_id;
        self.next_pool_id = self.next_pool_id + 1;
        let pool = Pool {
            id,
            token_a: key.0.clone(),
            token_b: key.1.clone(),
            reserve_a: 0,
            reserve_b: 0,
            total_lp_tokens: 0,
            lp_balances: KeyMap::new(),
            fee_bps: 0,
            cumulative_volume: 0,
            paused: false,
        };
        assert(pool.lp_balances.total() == 0);
        proof {
            assert(!old(self).pools@.contains_key(id));
        }
        self.pools.insert(id, pool);
        let event = DexEvent::PoolCreated { pool_id: id, token_a: key.0.clone(), token_b: key.1.clone() };
        self.pool_lookup.insert_sorted(key, id);
        proof {
            assert(self.pools@.remove(id) =~= old(self).pools@);
            assert forall|pid: u64| #[trigger] self.pools@.contains_key(pid) implies pool_wf(
                self.pools@[pid],
            ) && pid < self.next_pool_id by {
                if pid != id {
                    assert(old(self).pools@.contains_key(pid));
                }
            }
            assert forall|k: (Seq<char>, Seq<char>)| #[trigger] self.pool_lookup@.contains_key(k) implies {
                let p = self.pools@[self.pool_lookup@[k]];
                &&& self.pools@.contains_key(self.pool_lookup@[k])
                &&& p.token_a@ == k.0
                &&& p.token_b@ == k.1
            } by {
                if k != ordered(token_a@, token_b@) {
                    assert(old(self).pool_lookup@.contains_key(k));
                    assert(self.pool_lookup@[k] != id);
                }
            }
        }
        event
    }

    /// The index of an existing pool among the pools' entries.
    fn pool_index(&self, pool_id: u64) -> (i: usize)
        requires
            self.pools.wf(),
            self.pools@.contains_key(pool_id),
        ensures
            i < self.pools.entries().len(),
            self.pools.entries()[i as int].0 == pool_id,
            self.pools.entries()[i as int].1 == self.pools@[pool_id],
    {
        match self.pools.find(&pool_id) {
            Some(i) => {
                proof {
                    self.pools.lemma_entry(i as int);
                }
                i
            },
            None => {
                assert(false);
                0
            },
        }
    }

}

/// The integer square root is unique.
proof fn lemma_floor_sqrt_unique(r: int, n: int)
    requires
        is_floor_sqrt(r, n),
    ensures
        floor_sqrt(n) == r,
{
    let s = floor_sqrt(n);
    assert(is_floor_sqrt(s, n));
    if s < r {
        assert((s + 1) * (s + 1) <= r * r) by (nonlinear_arith)
            requires
                0 <= s < r,
        ;
    } else if r < s {
        assert((r + 1) * (r + 1) <= s * s) by (nonlinear_arith)
            requires
                0 <= r < s,
        ;
    }
}

impl DexState {
    /// Deposits `amount_a` and `amount_b` into a pool for `provider`, who
    /// is credited the LP tokens minted for them.
    pub fn add_liquidity(
        &mut self,
        pool_id: u64,
        provider: &str,
        amount_a: u64,
        amount_b: u64,
        min_lp_tokens: u64,
    ) -> (r: DexEvent)
        requires
            old(self).wf(),
            old(self).pools@.contains_key(pool_id),
            ({
                let p = old(self).pools@[pool_id];
                let lp = lp_minted(p, amount_a, amount_b);
                &&& !p.paused
                &&& amount_a > 0
                &&& amount_b > 0
                &&& p.total_lp_tokens == 0 ==> lp > 0
                &&& lp >= min_lp_tokens
                &&& p.reserve_a + amount_a <= u64::MAX
                &&& p.reserve_b + amount_b <= u64::MAX
                &&& p.total_lp_tokens + lp <= u64::MAX
            }),
        ensures
            final(self).wf(),
            ({
                let p = old(self).pools@[pool_id];
                let lp = lp_minted(p, amount_a, amount_b);
                let q = final(self).pools@[pool_id];
                &&& r matches DexEvent::LiquidityAdded {
                    pool_id: id,
                    provider: who,
                    amount_a: x,
                    amount_b: y,
                    lp_tokens: l,
                } && id == pool_id && who@ == provider@ && x == amount_a && y == amount_b && l == lp
                &&& final(self).pools@ == old(self).pools@.insert(pool_id, q)
                &&& q == Pool {
                    reserve_a: (p.reserve_a + amount_a) as u64,
                    reserve_b: (p.reserve_b + amount_b) as u64,
                    total_lp_tokens: (p.total_lp_tokens + lp) as u64,
                    lp_balances: q.lp_balances,
                    ..p
                }
                &&& q.lp_balances@ == p.lp_balances@.insert(
                    provider@,
                    (p.lp_balances.get_or(provider@, 0) + lp) as u64,
                )
            }),
            *final(self) == (DexState { pools: final(self).pools, ..*old(self) }),
    {
        let i = self.pool_index(pool_id);
        let ghost before = *self;
        let ghost p = old(self).pools@[pool_id];
        let key = String::from_str(provider);
        let lp_tokens = {
            let pool = self.pools.value_mut_at(i);
            let lp_tokens = if pool.total_lp_tokens == 0 {
                proof {
                    lemma_mul_u64_fits(amount_a, amount_b);
                }
                let minted = isqrt(amount_a as u128 * amount_b as u128);
                proof {
                    lemma_floor_sqrt_unique(minted as int, amount_a as int * amount_b as int);
                }
                minted
            } else {
                proof {
                    lemma_mul_u64_fits(amount_a, pool.total_lp_tokens);
                    lemma_mul_u64_fits(amount_b, pool.total_lp_tokens);
                }
                let lp_a = (amount_a as u128 * pool.total_lp_tokens as u128) / pool.reserve_a as u128;
                let lp_b = (amount_b as u128 * pool.total_lp_tokens as u128) / pool.reserve_b as u128;
                if lp_a < lp_b {
                    lp_a as u64
                } else {
                    lp_b as u64
                }
            };
            proof {
                pool.lp_balances.lemma_total_ge(key@);
            }
            pool.reserve_a = pool.reserve_a + amount_a;
            pool.reserve_b = pool.reserve_b + amount_b;
            pool.total_lp_tokens = pool.total_lp_tokens + lp_tokens;
            let bal = pool.lp_balances.get_or_zero(&key);
            let ghost lb0 = pool.lp_balances;
            pool.lp_balances.insert(key, bal + lp_tokens);
            proof {
                KeyMap::lemma_total_insert(lb0, pool.lp_balances, key, (bal + lp_tokens) as u64);
            }
            lp_tokens
        };
        proof {
            KeyMap::lemma_set_at(before.pools, self.pools, i as int);
            lemma_pool_replaced(before, *self, pool_id);
        }
        DexEvent::LiquidityAdded {
            pool_id,
            provider: String::from_str(provider),
            amount_a,
            amount_b,
            lp_tokens,
        }
    }

    /// Burns `lp_amount` of `provider`'s LP tokens for their share of both reserves.
    pub fn remove_liquidity(&mut self, pool_id: u64, provider: &str, lp_amount: u64, min_a: u64, min_b: u64) -> (r:
        DexEvent)
        requires
            old(self).wf(),
            old(self).pools@.contains_key(pool_id),
            ({
                let p = old(self).pools@[pool_id];
                &&& !p.paused
                &&& lp_amount > 0
                &&& p.lp_balances.get_or(provider@, 0) >= lp_amount
                &&& lp_share(lp_amount, p.reserve_a, p.total_lp_tokens) >= min_a
                &&& lp_share(lp_amount, p.reserve_b, p.total_lp_tokens) >= min_b
            }),
        ensures
            final(self).wf(),
            ({
                let p = old(self).pools@[pool_id];
                let amount_a = lp_share(lp_amount, p.reserve_a, p.total_lp_tokens);
                let amount_b = lp_share(lp_amount, p.reserve_b, p.total_lp_tokens);
                let q = final(self).pools@[pool_id];
                &&& r matches DexEvent::LiquidityRemoved {
                    pool_id: id,
                    provider: who,
                    amount_a: x,
                    amount_b: y,
                    lp_burned: l,
                } && id == pool_id && who@ == provider@ && x == amount_a && y == amount_b && l
                    == lp_amount
                &&& final(self).pools@ == old(self).pools@.insert(pool_id, q)
                &&& q == Pool {
                    reserve_a: (p.reserve_a - amount_a) as u64,
                    reserve_b: (p.reserve_b - amount_b) as u64,
                    total_lp_tokens: (p.total_lp_tokens - lp_amount) as u64,
                    lp_balances: q.lp_balances,
                    ..p
                }
                &&& q.lp_balances@ == p.lp_balances@.insert(
                    provider@,
                    (p.lp_balances.get_or(provider@, 0) - lp_amount) as u64,
                )
            }),
            *final(self) == (DexState { pools: final(self).pools, ..*old(self) }),
    {
        let i = self.pool_index(pool_id);
        let ghost before = *self;
        let key = String::from_str(provider);
        let (amount_a, amount_b) = {
            let pool = self.pools.value_mut_at(i);
            let provider_balance = pool.lp_balances.get_or_zero(&key);
            proof {
                pool.lp_balances.lemma_total_ge(key@);
            }
            let total = pool.total_lp_tokens;
            let ra = pool.reserve_a;
            let rb = pool.reserve_b;
            let amount_a = mul_div(lp_amount, ra, total);
            let amount_b = mul_div(lp_amount, rb, total);
            proof {
                assert((lp_amount as int * ra as int) / (total as int) <= ra) by (nonlinear_arith)
                    requires
                        lp_amount <= total,
                        total > 0,
                ;
                assert((lp_amount as int * rb as int) / (total as int) <= rb) by (nonlinear_arith)
                    requires
                        lp_amount <= total,
                        total > 0,
                ;
                if lp_amount < total {
                    assert((lp_amount as int * ra as int) / (total as int) < ra) by (nonlinear_arith)
                        requires
                            lp_amount < total,
                            ra > 0,
                    ;
                    assert((lp_amount as int * rb as int) / (total as int) < rb) by (nonlinear_arith)
                        requires
                            lp_amount < total,
                            rb > 0,
                    ;
                }
            }
            pool.reserve_a = ra - amount_a;
            pool.reserve_b = rb - amount_b;
            pool.total_lp_tokens = total - lp_amount;
            let ghost lb0 = pool.lp_balances;
            pool.lp_balances.insert(key, provider_balance - lp_amount);
            proof {
                KeyMap::lemma_total_insert(lb0, pool.lp_balances, key, (provider_balance - lp_amount) as u64);
            }
            (amount_a, amount_b)
        };
        proof {
            KeyMap::lemma_set_at(before.pools, self.pools, i as int);
            lemma_pool_replaced(before, *self, pool_id);
        }
        DexEvent::LiquidityRemoved {
            pool_id,
            provider: String::from_str(provider),
            amount_a,
            amount_b,
            lp_burned: lp_amount,
        }
    }

    /// Sets the swap fee of a pool; the owner only, at most 10%.
    pub fn set_fee(&mut self, caller: &str, pool_id: u64, fee_bps: u64)
        requires
            old(self).wf(),
            caller@ == old(self).owner@,
            fee_bps <= 1000,
            old(self).pools@.contains_key(pool_id),
        ensures
            final(self).wf(),
            final(self).pools@ == old(self).pools@.insert(
                pool_id,
                Pool { fee_bps, ..old(self).pools@[pool_id] },
            ),
            *final(self) == (DexState { pools: final(self).pools, ..*old(self) }),
    {
        let i = self.pool_index(pool_id);
        let ghost before = *self;
        {
            let pool = self.pools.value_mut_at(i);
            pool.fee_bps = fee_bps;
        }
        proof {
            KeyMap::lemma_set_at(before.pools, self.pools, i as int);
            lemma_pool_replaced(before, *self, pool_id);
        }
    }

    /// Pays out the protocol fees collected in `token`; the owner only.
    pub fn collect_protocol_fees(&mut self, caller: &str, token: &str) -> (r: DexEvent)
        requires
            old(self).wf(),
            caller@ == old(self).owner@,
            amount_at(old(self).protocol_fees@, token@) > 0,
        ensures
            final(self).wf(),
            r matches DexEvent::FeeCollected { token: t, amount, collector } && t@ == token@ && amount
                == amount_at(old(self).protocol_fees@, token@) && collector@ == caller@,
            final(self).protocol_fees@ == old(self).protocol_fees@.insert(token@, 0),
            *final(self) == (DexState { protocol_fees: final(self).protocol_fees, ..*old(self) }),
    {
        let key = String::from_str(token);
        let amount = self.protocol_fees.get_or_zero(&key);
        self.protocol_fees.insert(key, 0);
        DexEvent::FeeCollected {
            token: String::from_str(token),
            amount,
            collector: String::from_str(caller),
        }
    }

    /// Stops a running pool; the owner only.
    pub fn pause_pool(&mut self, caller: &str, pool_id: u64) -> (r: DexEvent)
        requires
            old(self).wf(),
            caller@ == old(self).owner@,
            old(self).pools@.contains_key(pool_id),
            !old(self).pools@[pool_id].paused,
        ensures
            final(self).wf(),
            r == (DexEvent::PoolPaused { pool_id }),
            final(self).pools@ == old(self).pools@.insert(
                pool_id,
                Pool { paused: true, ..old(self).pools@[pool_id] },
            ),
            *final(self) == (DexState { pools: final(self).pools, ..*old(self) }),
    {
        let i = self.pool_index(pool_id);
        let ghost before = *self;
        {
            let pool = self.pools.value_mut_at(i);
            pool.paused = true;
        }
        proof {
            KeyMap::lemma_set_at(before.pools, self.pools, i as int);
            lemma_pool_replaced(before, *self, pool_id);
        }
        DexEvent::PoolPaused { pool_id }
    }

    /// Restarts a stopped pool; the owner only.
    pub fn unpause_pool(&mut self, caller: &str, pool_id: u64) -> (r: DexEvent)
        requires
            old(self).wf(),
            caller@ == old(self).owner@,
            old(self).pools@.contains_key(pool_id),
            old(self).pools@[pool_id].paused,
        ensures
            final(self).wf(),
            r == (DexEvent::PoolUnpaused { pool_id }),
            final(self).pools@ == old(self).pools@.insert(
                pool_id,
                Pool { paused: false, ..old(self).pools@[pool_id] },
            ),
            *final(self) == (DexState { pools: final(self).pools, ..*old(self) }),
    {
        let i = self.pool_index(pool_id);
        let ghost before = *self;
        {
            let pool = self.pools.value_mut_at(i);
            pool.paused = false;
        }
        proof {
            KeyMap::lemma_set_at(before.pools, self.pools, i as int);
            lemma_pool_replaced(before, *self, pool_id);
        }
        DexEvent::PoolUnpaused { pool_id }
    }

    /// The pool with id `pool_id`.
    pub fn get_pool(&self, pool_id: u64) -> (r: Option<&Pool>)
        requires
            self.wf(),
        ensures
            match r {
                Some(p) => self.pools@.contains_key(pool_id) && *p == self.pools@[pool_id],
                None => !self.pools@.contains_key(pool_id),
            },
    {
        self.pools.get(&pool_id)
    }

    /// The id of the pool of two tokens, in either order.
    pub fn find_pool(&self, token_a: &str, token_b: &str) -> (r: Option<u64>)
        requires
            self.wf(),
        ensures
            r == (if self.pool_lookup@.contains_key(ordered(token_a@, token_b@)) {
                Some(self.pool_lookup@[ordered(token_a@, token_b@)])
            } else {
                None::<u64>
            }),
    {
        let key = ordered_pair(token_a, token_b);
        match self.pool_lookup.get(&key) {
            Some(id) => Some(*id),
            None => None,
        }
    }

    /// The number of pools.
    pub fn pool_count(&self) -> (r: usize)
        requires
            self.wf(),
        ensures
            r == self.pools@.len(),
    {
        self.pools.len()
    }
}

/// The output of the constant-product formula for `amount` in, with the
/// fee of `fee_bps` taken from the input.
pub open spec fn swap_output(rin: u64, rout: u64, amount: u64, fee_bps: u64) -> u64 {
    let iwf = amount as int * (10_000 - fee_bps);
    ((rout as int * iwf) / (rin as int * 10_000 + iwf)) as u64
}

/// The part `bps` (in basis points) of `amount`.
pub open spec fn fee_of(amount: u64, bps: u64) -> u64 {
    ((amount as int * bps as int) / 10_000) as u64
}

/// Whether the formula for an exact input computes: positive reserves and
/// input, a fee of at most 100%, a numerator within 128 bits.
pub open spec fn swap_fits(rin: u64, rout: u64, amount: u64, fee_bps: u64) -> bool {
    &&& rin > 0
    &&& rout > 0
    &&& amount > 0
    &&& fee_bps <= 10_000
    &&& rout as int * (amount as int * (10_000 - fee_bps)) <= u128::MAX
}

/// The input that buys `out` by the constant-product formula, before the
/// rounding up.
pub open spec fn exact_input_floor(rin: u64, rout: u64, out: u64, fee_bps: u64) -> int {
    (rin as int * out as int * 10_000) / ((rout - out) * (10_000 - fee_bps))
}

/// The input that buys exactly `out`, rounded up.
pub open spec fn exact_input(rin: u64, rout: u64, out: u64, fee_bps: u64) -> u64 {
    ((exact_input_floor(rin, rout, out, fee_bps) as u64) + 1) as u64
}

/// Whether the formula for an exact output computes: positive reserves, an
/// output below the reserve, a fee below 100%, a numerator within 128 bits
/// and an input within 64 bits.
pub open spec fn exact_out_fits(rin: u64, rout: u64, out: u64, fee_bps: u64) -> bool {
    &&& rin > 0
    &&& rout > 0
    &&& out > 0
    &&& out < rout
    &&& fee_bps < 10_000
    &&& rin as int * out as int * 10_000 <= u128::MAX
    &&& (exact_input_floor(rin, rout, out, fee_bps) as u64) < u64::MAX
}

/// The reserve of `token` in `p`, the other reserve, and whether `token` is
/// the pool's first token.
pub open spec fn reserves_for(p: Pool, token: Seq<char>) -> (u64, u64, bool) {
    if token == p.token_a@ {
        (p.reserve_a, p.reserve_b, true)
    } else {
        (p.reserve_b, p.reserve_a, false)
    }
}

/// The token of `p` that is not `token`.
pub open spec fn other_token(p: Pool, token: Seq<char>) -> Seq<char> {
    if token == p.token_a@ {
        p.token_b@
    } else {
        p.token_a@
    }
}

/// Pool `p` once `amount_in` of `token_in` came in and `amount_out` of the
/// other token went out.
pub open spec fn traded(p: Pool, token_in: Seq<char>, amount_in: u64, amount_out: u64) -> Pool {
    if token_in == p.token_a@ {
        Pool {
            reserve_a: (p.reserve_a + amount_in) as u64,
            reserve_b: (p.reserve_b - amount_out) as u64,
            cumulative_volume: (p.cumulative_volume + amount_in) as u64,
            ..p
        }
    } else {
        Pool {
            reserve_b: (p.reserve_b + amount_in) as u64,
            reserve_a: (p.reserve_a - amount_out) as u64,
            cumulative_volume: (p.cumulative_volume + amount_in) as u64,
            ..p
        }
    }
}

/// The pools and collected protocol fees of an exchange.
pub struct DexModel {
    pub pools: Map<u64, Pool>,
    pub protocol_fees: Map<Seq<char>, u64>,
}

/// The output of swapping exactly `amount` of `token` through pool `pid`.
pub open spec fn swap_in_output(m: DexModel, pid: u64, token: Seq<char>, amount: u64) -> u64 {
    let p = m.pools[pid];
    let r = reserves_for(p, token);
    swap_output(r.0, r.1, amount, p.fee_bps)
}

/// Whether swapping exactly `amount` of `token` through pool `pid` goes
/// through with at least `min_out` out, the protocol taking `pfb` basis
/// points.
pub open spec fn swap_in_allowed(m: DexModel, pfb: u64, pid: u64, token: Seq<char>, amount: u64, min_out: u64) -> bool {
    &&& m.pools.contains_key(pid)
    &&& {
        let p = m.pools[pid];
        let r = reserves_for(p, token);
        &&& !p.paused
        &&& (token == p.token_a@ || token == p.token_b@)
        &&& swap_fits(r.0, r.1, amount, p.fee_bps)
        &&& swap_output(r.0, r.1, amount, p.fee_bps) >= min_out
        &&& amount_at(m.protocol_fees, token) + fee_of(amount, pfb) <= u64::MAX
        &&& r.0 + amount <= u64::MAX
        &&& p.cumulative_volume + amount <= u64::MAX
    }
}

/// The exchange once exactly `amount` of `token` is swapped through pool `pid`.
pub open spec fn swap_in(m: DexModel, pfb: u64, pid: u64, token: Seq<char>, amount: u64) -> DexModel {
    let p = m.pools[pid];
    DexModel {
        pools: m.pools.insert(pid, traded(p, token, amount, swap_in_output(m, pid, token, amount))),
        protocol_fees: m.protocol_fees.insert(
            token,
            (amount_at(m.protocol_fees, token) + fee_of(amount, pfb)) as u64,
        ),
    }
}

/// The input of buying exactly `amount` of `token` from pool `pid`.
pub open spec fn swap_out_input(m: DexModel, pid: u64, token: Seq<char>, amount: u64) -> u64 {
    let p = m.pools[pid];
    let r = reserves_for(p, other_token(p, token));
    exact_input(r.0, r.1, amount, p.fee_bps)
}

/// Whether buying exactly `amount` of `token` from pool `pid` goes through
/// for at most `max_in`.
pub open spec fn swap_out_allowed(m: DexModel, pfb: u64, pid: u64, token: Seq<char>, amount: u64, max_in: u64) -> bool {
    &&& m.pools.contains_key(pid)
    &&& {
        let p = m.pools[pid];
        let token_in = other_token(p, token);
        let r = reserves_for(p, token_in);
        let input = exact_input(r.0, r.1, amount, p.fee_bps);
        &&& !p.paused
        &&& (token == p.token_a@ || token == p.token_b@)
        &&& exact_out_fits(r.0, r.1, amount, p.fee_bps)
        &&& input <= max_in
        &&& amount_at(m.protocol_fees, token_in) + fee_of(input, pfb) <= u64::MAX
        &&& r.0 + input <= u64::MAX
        &&& p.cumulative_volume + input <= u64::MAX
    }
}

/// The exchange once exactly `amount` of `token` is bought from pool `pid`.
pub open spec fn swap_out(m: DexModel, pfb: u64, pid: u64, token: Seq<char>, amount: u64) -> DexModel {
    let p = m.pools[pid];
    let token_in = other_token(p, token);
    let input = swap_out_input(m, pid, token, amount);
    DexModel {
        pools: m.pools.insert(pid, traded(p, token_in, input, amount)),
        protocol_fees: m.protocol_fees.insert(
            token_in,
            (amount_at(m.protocol_fees, token_in) + fee_of(input, pfb)) as u64,
        ),
    }
}

/// The exchange, token and amount after the hops of `path`, starting from
/// `amount` of `token`: each hop swaps what the last one put out.
pub open spec fn route(m: DexModel, pfb: u64, path: Seq<u64>, token: Seq<char>, amount: u64) -> (DexModel, Seq<char>, u64)
    decreases path.len(),
{
    if path.len() == 0 {
        (m, token, amount)
    } else {
        let prev = route(m, pfb, path.drop_last(), token, amount);
        let pid = path.last();
        (
            swap_in(prev.0, pfb, pid, prev.1, prev.2),
            other_token(prev.0.pools[pid], prev.1),
            swap_in_output(prev.0, pid, prev.1, prev.2),
        )
    }
}

/// Whether every hop of `path` goes through.
pub open spec fn route_allowed(m: DexModel, pfb: u64, path: Seq<u64>, token: Seq<char>, amount: u64) -> bool
    decreases path.len(),
{
    if path.len() == 0 {
        true
    } else {
        let prev = route(m, pfb, path.drop_last(), token, amount);
        route_allowed(m, pfb, path.drop_last(), token, amount) && swap_in_allowed(
            prev.0,
            pfb,
            path.last(),
            prev.1,
            prev.2,
            0,
        )
    }
}

/// Whether `e` reports a swap of `amount_in` of `token_in` for `amount_out`
/// of `token_out` through pool `pid` by `trader`.
pub open spec fn is_swap_event(
    e: DexEvent,
    pid: u64,
    trader: Seq<char>,
    token_in: Seq<char>,
    amount_in: u64,
    token_out: Seq<char>,
    amount_out: u64,
) -> bool {
    e matches DexEvent::Swap {
        pool_id,
        trader: t,
        input_token: ti,
        input_amount: ai,
        output_token: to,
        output_amount: ao,
    } && pool_id == pid && t@ == trader && ti@ == token_in && ai == amount_in && to@ == token_out
        && ao == amount_out
}

/// The price impact of getting `out` where the pool's spot price gives
/// `ideal`, in basis points.
pub open spec fn impact_bps(ideal: u64, out: u64) -> u64 {
    if ideal > 0 {
        ((((ideal - out) as int) * 10_000) / (ideal as int)) as u64
    } else {
        0
    }
}

/// The output for `amount` at the pool's spot price.
pub open spec fn ideal_output(rin: u64, rout: u64, amount: u64) -> u64 {
    ((amount as int * rout as int) / (rin as int)) as u64
}

/// Whether a pool can be swapped through: running, with both reserves.
pub open spec fn pool_active(p: Pool) -> bool {
    !p.paused && p.reserve_a > 0 && p.reserve_b > 0
}

/// The output of a candidate route, zero for none.
pub open spec fn cand_out(o: Option<(Seq<u64>, u64)>) -> u64 {
    match o {
        Some(r) => r.1,
        None => 0,
    }
}

/// The pools of a candidate route, empty for none.
pub open spec fn cand_path(o: Option<(Seq<u64>, u64)>) -> Seq<u64> {
    match o {
        Some(r) => r.0,
        None => Seq::empty(),
    }
}

/// Whether `path` with output `out` is the first best of the candidate
/// routes `c`: no candidate does better, the first one that does as well is
/// it, and with nothing better than zero the path is empty.
pub open spec fn first_best(c: Seq<Option<(Seq<u64>, u64)>>, path: Seq<u64>, out: u64) -> bool {
    &&& forall|i: int| 0 <= i < c.len() && #[trigger] c[i] is Some ==> cand_out(c[i]) <= out
    &&& out == 0 ==> path.len() == 0
    &&& out > 0 ==> exists|k: int|
        0 <= k < c.len() && #[trigger] c[k] == Some((path, out)) && forall|j: int|
            0 <= j < k && #[trigger] c[j] is Some ==> cand_out(c[j]) < out
}

/// Considering one more candidate keeps the first best: it takes over only
/// when it does strictly better.
proof fn lemma_first_best_push(c: Seq<Option<(Seq<u64>, u64)>>, x: Option<(Seq<u64>, u64)>, path: Seq<u64>, out: u64)
    requires
        first_best(c, path, out),
    ensures
        (x is Some && cand_out(x) > out) ==> first_best(c.push(x), cand_path(x), cand_out(x)),
        !(x is Some && cand_out(x) > out) ==> first_best(c.push(x), path, out),
{
    let d = c.push(x);
    if x is Some && cand_out(x) > out {
        assert(d[c.len() as int] == Some((cand_path(x), cand_out(x))));
        assert forall|j: int| 0 <= j < c.len() && #[trigger] d[j] is Some implies cand_out(d[j]) < cand_out(x) by {
            assert(d[j] == c[j]);
        }
        assert forall|i: int| 0 <= i < d.len() && #[trigger] d[i] is Some implies cand_out(d[i]) <= cand_out(x) by {
            if i < c.len() {
                assert(d[i] == c[i]);
            }
        }
    } else {
        assert forall|i: int| 0 <= i < d.len() && #[trigger] d[i] is Some implies cand_out(d[i]) <= out by {
            if i < c.len() {
                assert(d[i] == c[i]);
            }
        }
        if out > 0 {
            let k = choose|k: int|
                0 <= k < c.len() && #[trigger] c[k] == Some((path, out)) && forall|j: int|
                    0 <= j < k && #[trigger] c[j] is Some ==> cand_out(c[j]) < out;
            assert(d[k] == c[k]);
            assert forall|j: int| 0 <= j < k && #[trigger] d[j] is Some implies cand_out(d[j]) < out by {
                assert(d[j] == c[j]);
            }
        }
    }
}

impl DexState {
    /// The direct route from `input` to `output`, where its pool can be swapped through.
    pub open spec fn direct_candidate(&self, input: Seq<char>, output: Seq<char>, amount: u64) -> Option<(Seq<u64>, u64)> {
        let key = ordered(input, output);
        if self.pool_lookup@.contains_key(key) && pool_active(self.pools@[self.pool_lookup@[key]]) {
            let pid = self.pool_lookup@[key];
            let p = self.pools@[pid];
            let r = reserves_for(p, input);
            Some((seq![pid], swap_output(r.0, r.1, amount, p.fee_bps)))
        } else {
            None
        }
    }

    /// Whether the direct route computes, where it is tried.
    pub open spec fn direct_fits(&self, input: Seq<char>, output: Seq<char>, amount: u64) -> bool {
        let key = ordered(input, output);
        self.pool_lookup@.contains_key(key) && pool_active(self.pools@[self.pool_lookup@[key]]) ==> {
            let p = self.pools@[self.pool_lookup@[key]];
            let r = reserves_for(p, input);
            swap_fits(r.0, r.1, amount, p.fee_bps)
        }
    }

    /// The token a two-hop route passes through when its first pool is the
    /// pool of pair `k`, and whether that pool holds `input` at all.
    pub open spec fn via(k: (Seq<char>, Seq<char>), input: Seq<char>) -> (Seq<char>, bool) {
        if k.0 == input {
            (k.1, true)
        } else if k.1 == input {
            (k.0, true)
        } else {
            (k.0, false)
        }
    }

    /// Whether the two-hop route through the pool of `k` (with id `pid1`) is
    /// tried: its first pool can be swapped through and holds `input`, it
    /// passes through a token other than `output`, and that token's pool with
    /// `output` exists and can be swapped through.
    pub open spec fn two_hop_tried(&self, k: (Seq<char>, Seq<char>), pid1: u64, input: Seq<char>, output: Seq<char>) -> bool {
        let v = Self::via(k, input);
        let key2 = ordered(v.0, output);
        &&& pool_active(self.pools@[pid1])
        &&& v.1
        &&& v.0 != output
        &&& self.pool_lookup@.contains_key(key2)
        &&& pool_active(self.pools@[self.pool_lookup@[key2]])
    }

    /// What the first hop of that route puts out.
    pub open spec fn first_hop(&self, pid1: u64, input: Seq<char>, amount: u64) -> u64 {
        let p1 = self.pools@[pid1];
        let r1 = reserves_for(p1, input);
        swap_output(r1.0, r1.1, amount, p1.fee_bps)
    }

    /// The two-hop route through the pool of `k`, where it is tried and its
    /// first hop puts out something.
    pub open spec fn two_hop_candidate(&self, k: (Seq<char>, Seq<char>), pid1: u64, input: Seq<char>, output: Seq<char>, amount: u64) -> Option<(Seq<u64>, u64)> {
        let v = Self::via(k, input);
        let pid2 = self.pool_lookup@[ordered(v.0, output)];
        let p2 = self.pools@[pid2];
        let mid = self.first_hop(pid1, input, amount);
        let r2 = reserves_for(p2, v.0);
        if self.two_hop_tried(k, pid1, input, output) && mid > 0 {
            Some((seq![pid1, pid2], swap_output(r2.0, r2.1, mid, p2.fee_bps)))
        } else {
            None
        }
    }

    /// Whether the two-hop route through the pool of `k` computes, where it is tried.
    pub open spec fn two_hop_fits(&self, k: (Seq<char>, Seq<char>), pid1: u64, input: Seq<char>, output: Seq<char>, amount: u64) -> bool {
        let v = Self::via(k, input);
        let p1 = self.pools@[pid1];
        let r1 = reserves_for(p1, input);
        let p2 = self.pools@[self.pool_lookup@[ordered(v.0, output)]];
        let mid = self.first_hop(pid1, input, amount);
        let r2 = reserves_for(p2, v.0);
        self.two_hop_tried(k, pid1, input, output) ==> {
            &&& swap_fits(r1.0, r1.1, amount, p1.fee_bps)
            &&& mid > 0 ==> swap_fits(r2.0, r2.1, mid, p2.fee_bps)
        }
    }

    /// The routes from `input` to `output` in the order they are tried: the
    /// direct one, then the two-hop ones in ascending order of the first
    /// pool's token pair.
    pub open spec fn candidates(&self, input: Seq<char>, output: Seq<char>, amount: u64) -> Seq<Option<(Seq<u64>, u64)>> {
        seq![self.direct_candidate(input, output, amount)] + self.pool_lookup.entries().map_values(
            |e: ((String, String), u64)| self.two_hop_candidate((e.0.0@, e.0.1@), e.1, input, output, amount),
        )
    }

    /// Whether every route that is tried computes.
    pub open spec fn candidates_fit(&self, input: Seq<char>, output: Seq<char>, amount: u64) -> bool {
        &&& self.direct_fits(input, output, amount)
        &&& forall|i: int|
            0 <= i < self.pool_lookup.entries().len() ==> #[trigger] self.two_hop_fits(
                (self.pool_lookup.entries()[i].0.0@, self.pool_lookup.entries()[i].0.1@),
                self.pool_lookup.entries()[i].1,
                input,
                output,
                amount,
            )
    }
}

/// The constant-product formula never pays out the whole reserve.
proof fn lemma_swap_output_below_reserve(rin: u64, rout: u64, amount: u64, fee_bps: u64)
    requires
        swap_fits(rin, rout, amount, fee_bps),
    ensures
        swap_output(rin, rout, amount, fee_bps) < rout,
        (rout as int * (amount as int * (10_000 - fee_bps))) / (rin as int * 10_000 + amount as int * (
        10_000 - fee_bps)) < rout,
{
    let iwf = amount as int * (10_000 - fee_bps);
    assert(iwf >= 0) by (nonlinear_arith)
        requires
            fee_bps <= 10_000,
            iwf == amount as int * (10_000 - fee_bps),
    ;
    assert((rout as int * iwf) / (rin as int * 10_000 + iwf) < rout) by (nonlinear_arith)
        requires
            rin > 0,
            rout > 0,
            iwf >= 0,
    ;
}

/// Replacing a pool by one with the same tokens that keeps the pool
/// invariant keeps the invariant of the exchange.
proof fn lemma_pool_replaced(before: DexState, after: DexState, pid: u64)
    requires
        before.wf(),
        before.pools@.contains_key(pid),
        after.pools.wf(),
        after.pools@ == before.pools@.insert(pid, after.pools@[pid]),
        pool_wf(after.pools@[pid]),
        after.pools@[pid].token_a@ == before.pools@[pid].token_a@,
        after.pools@[pid].token_b@ == before.pools@[pid].token_b@,
        after.pool_lookup == before.pool_lookup,
        after.next_pool_id == before.next_pool_id,
        after.protocol_fees.wf(),
    ensures
        after.wf(),
{
    assert forall|q: u64| #[trigger] after.pools@.contains_key(q) implies pool_wf(after.pools@[q])
        && q < after.next_pool_id by {
        assert(before.pools@.contains_key(q));
    }
    assert forall|k: (Seq<char>, Seq<char>)| #[trigger] after.pool_lookup@.contains_key(k) implies {
        let p = after.pools@[after.pool_lookup@[k]];
        &&& after.pools@.contains_key(after.pool_lookup@[k])
        &&& p.token_a@ == k.0
        &&& p.token_b@ == k.1
    } by {
        assert(before.pool_lookup@.contains_key(k));
    }
}

impl DexState {
    /// The pools and protocol fees of the exchange.
    pub open spec fn model(&self) -> DexModel {
        DexModel { pools: self.pools@, protocol_fees: self.protocol_fees@ }
    }

    /// The output, fee and protocol fee of swapping exactly `input_amount` in.
    fn compute_swap(&self, reserve_in: u64, reserve_out: u64, input_amount: u64, fee_bps: u64) -> (r: (
        u64,
        u64,
        u64,
    ))
        requires
            swap_fits(reserve_in, reserve_out, input_amount, fee_bps),
        ensures
            r == (
                swap_output(reserve_in, reserve_out, input_amount, fee_bps),
                fee_of(input_amount, fee_bps),
                fee_of(input_amount, self.protocol_fee_bps),
            ),
    {
        proof {
            lemma_mul_u64_fits(input_amount, fee_bps);
            lemma_mul_u64_fits(input_amount, self.protocol_fee_bps);
            lemma_mul_u64_fits(input_amount, (10_000 - fee_bps) as u64);
            assert(input_amount as int * (10_000 - fee_bps) <= u64::MAX as int * 10_000) by (nonlinear_arith)
                requires
                    fee_bps <= 10_000,
            ;
            assert(reserve_in as int * 10_000 <= u64::MAX as int * 10_000) by (nonlinear_arith);
        }
        let total_fee = (input_amount as u128 * fee_bps as u128) / 10_000;
        let protocol_fee = (input_amount as u128 * self.protocol_fee_bps as u128) / 10_000;
        let input_with_fee = input_amount as u128 * (10_000 - fee_bps) as u128;
        let numerator = reserve_out as u128 * input_with_fee;
        let denominator = reserve_in as u128 * 10_000 + input_with_fee;
        let output = (numerator / denominator) as u64;
        (output, total_fee as u64, protocol_fee as u64)
    }

    /// The input, fee and protocol fee of buying exactly `output_amount`.
    fn compute_swap_exact_out(&self, reserve_in: u64, reserve_out: u64, output_amount: u64, fee_bps: u64) -> (r: (
        u64,
        u64,
        u64,
    ))
        requires
            exact_out_fits(reserve_in, reserve_out, output_amount, fee_bps),
        ensures
            r.0 == exact_input(reserve_in, reserve_out, output_amount, fee_bps),
            r.1 == fee_of(r.0, fee_bps),
            r.2 == fee_of(r.0, self.protocol_fee_bps),
    {
        proof {
            lemma_mul_u64_fits((reserve_out - output_amount) as u64, (10_000 - fee_bps) as u64);
            assert((reserve_out - output_amount) * (10_000 - fee_bps) > 0) by (nonlinear_arith)
                requires
                    output_amount < reserve_out,
                    fee_bps < 10_000,
            ;
            lemma_mul_u64_fits(reserve_in, output_amount);
        }
        let numerator = reserve_in as u128 * output_amount as u128 * 10_000;
        let denominator = (reserve_out as u128 - output_amount as u128) * (10_000 - fee_bps) as u128;
        let input = (numerator / denominator) as u64 + 1;
        proof {
            lemma_mul_u64_fits(input, fee_bps);
            lemma_mul_u64_fits(input, self.protocol_fee_bps);
        }
        let total_fee = (input as u128 * fee_bps as u128) / 10_000;
        let protocol_fee = (input as u128 * self.protocol_fee_bps as u128) / 10_000;
        (input, total_fee as u64, protocol_fee as u64)
    }

    /// The reserve of `input_token` in the pool, the other reserve, and
    /// whether the token is the pool's first.
    fn resolve_reserves(pool: &Pool, input_token: &str) -> (r: (u64, u64, bool))
        requires
            input_token@ == pool.token_a@ || input_token@ == pool.token_b@,
        ensures
            r == reserves_for(*pool, input_token@),
    {
        if str_eq(input_token, pool.token_a.as_str()) {
            (pool.reserve_a, pool.reserve_b, true)
        } else {
            (pool.reserve_b, pool.reserve_a, false)
        }
    }

    /// Records `fee` more protocol fees in `token`.
    fn add_protocol_fee(&mut self, token: String, fee: u64)
        requires
            old(self).wf(),
            amount_at(old(self).protocol_fees@, token@) + fee <= u64::MAX,
        ensures
            final(self).wf(),
            final(self).protocol_fees@ == old(self).protocol_fees@.insert(
                token@,
                (amount_at(old(self).protocol_fees@, token@) + fee) as u64,
            ),
            *final(self) == (DexState { protocol_fees: final(self).protocol_fees, ..*old(self) }),
    {
        let collected = self.protocol_fees.get_or_zero(&token);
        self.protocol_fees.insert(token, collected + fee);
    }

    /// Moves `amount_in` into pool `pool_id` on the side of `token_in` and
    /// `amount_out` out of the other side.
    fn trade_pool(&mut self, pool_id: u64, token_in: &str, amount_in: u64, amount_out: u64)
        requires
            old(self).wf(),
            old(self).pools@.contains_key(pool_id),
            ({
                let p = old(self).pools@[pool_id];
                let r = reserves_for(p, token_in@);
                &&& r.0 + amount_in <= u64::MAX
                &&& amount_out < r.1
                &&& p.cumulative_volume + amount_in <= u64::MAX
            }),
        ensures
            final(self).wf(),
            final(self).pools@ == old(self).pools@.insert(
                pool_id,
                traded(old(self).pools@[pool_id], token_in@, amount_in, amount_out),
            ),
            *final(self) == (DexState { pools: final(self).pools, ..*old(self) }),
    {
        let i = self.pool_index(pool_id);
        let ghost before = *self;
        {
            let pool = self.pools.value_mut_at(i);
            if str_eq(token_in, pool.token_a.as_str()) {
                pool.reserve_a = pool.reserve_a + amount_in;
                pool.reserve_b = pool.reserve_b - amount_out;
            } else {
                pool.reserve_b = pool.reserve_b + amount_in;
                pool.reserve_a = pool.reserve_a - amount_out;
            }
            pool.cumulative_volume = pool.cumulative_volume + amount_in;
        }
        proof {
            KeyMap::lemma_set_at(before.pools, self.pools, i as int);
            lemma_pool_replaced(before, *self, pool_id);
        }
    }

    /// Swaps exactly `input_amount` of `input_token` through a pool for at
    /// least `min_output` of its other token.
    pub fn swap_exact_in(
        &mut self,
        pool_id: u64,
        trader: &str,
        input_token: &str,
        input_amount: u64,
        min_output: u64,
    ) -> (r: DexEvent)
        requires
            old(self).wf(),
            swap_in_allowed(
                old(self).model(),
                old(self).protocol_fee_bps,
                pool_id,
                input_token@,
                input_amount,
                min_output,
            ),
        ensures
            final(self).wf(),
            final(self).model() == swap_in(
                old(self).model(),
                old(self).protocol_fee_bps,
                pool_id,
                input_token@,
                input_amount,
            ),
            is_swap_event(
                r,
                pool_id,
                trader@,
                input_token@,
                input_amount,
                other_token(old(self).pools@[pool_id], input_token@),
                swap_in_output(old(self).model(), pool_id, input_token@, input_amount),
            ),
            final(self).pool_lookup == old(self).pool_lookup,
            final(self).next_pool_id == old(self).next_pool_id,
            final(self).owner == old(self).owner,
            final(self).protocol_fee_bps == old(self).protocol_fee_bps,
    {
        let (output_amount, protocol_fee, a_is_input, output_token) = {
            let pool = match self.pools.get(&pool_id) {
                Some(p) => p,
                None => {
                    assert(false);
                    return DexEvent::PoolPaused { pool_id };
                },
            };
            let (reserve_in, reserve_out, a_is_input) = Self::resolve_reserves(pool, input_token);
            let (output_amount, _fee, protocol_fee) = self.compute_swap(
                reserve_in,
                reserve_out,
                input_amount,
                pool.fee_bps,
            );
            proof {
                lemma_swap_output_below_reserve(reserve_in, reserve_out, input_amount, pool.fee_bps);
            }
            let output_token = if a_is_input {
                pool.token_b.clone()
            } else {
                pool.token_a.clone()
            };
            (output_amount, protocol_fee, a_is_input, output_token)
        };
        self.add_protocol_fee(String::from_str(input_token), protocol_fee);
        self.trade_pool(pool_id, input_token, input_amount, output_amount);
        DexEvent::Swap {
            pool_id,
            trader: String::from_str(trader),
            input_token: String::from_str(input_token),
            input_amount,
            output_token,
            output_amount,
        }
    }

    /// Buys exactly `output_amount` of `output_token` from a pool for at most
    /// `max_input` of its other token.
    pub fn swap_exact_out(
        &mut self,
        pool_id: u64,
        trader: &str,
        output_token: &str,
        output_amount: u64,
        max_input: u64,
    ) -> (r: DexEvent)
        requires
            old(self).wf(),
            swap_out_allowed(
                old(self).model(),
                old(self).protocol_fee_bps,
                pool_id,
                output_token@,
                output_amount,
                max_input,
            ),
        ensures
            final(self).wf(),
            final(self).model() == swap_out(
                old(self).model(),
                old(self).protocol_fee_bps,
                pool_id,
                output_token@,
                output_amount,
            ),
            is_swap_event(
                r,
                pool_id,
                trader@,
                other_token(old(self).pools@[pool_id], output_token@),
                swap_out_input(old(self).model(), pool_id, output_token@, output_amount),
                output_token@,
                output_amount,
            ),
            final(self).pool_lookup == old(self).pool_lookup,
            final(self).next_pool_id == old(self).next_pool_id,
            final(self).owner == old(self).owner,
            final(self).protocol_fee_bps == old(self).protocol_fee_bps,
    {
        let (input_amount, protocol_fee, input_token) = {
            let pool = match self.pools.get(&pool_id) {
                Some(p) => p,
                None => {
                    assert(false);
                    return DexEvent::PoolPaused { pool_id };
                },
            };
            let (reserve_in, reserve_out, a_is_input) = if str_eq(output_token, pool.token_b.as_str()) {
                (pool.reserve_a, pool.reserve_b, true)
            } else {
                (pool.reserve_b, pool.reserve_a, false)
            };
            let (input_amount, _fee, protocol_fee) = self.compute_swap_exact_out(
                reserve_in,
                reserve_out,
                output_amount,
                pool.fee_bps,
            );
            let input_token = if a_is_input {
                pool.token_a.clone()
            } else {
                pool.token_b.clone()
            };
            (input_amount, protocol_fee, input_token)
        };
        self.add_protocol_fee(input_token.clone(), protocol_fee);
        self.trade_pool(pool_id, input_token.as_str(), input_amount, output_amount);
        DexEvent::Swap {
            pool_id,
            trader: String::from_str(trader),
            input_token,
            input_amount,
            output_token: String::from_str(output_token),
            output_amount,
        }
    }

    /// The price of swapping exactly `input_amount` of `input_token` through
    /// a pool, and its impact against the pool's spot price.
    pub fn get_quote(&self, pool_id: u64, input_token: &str, input_amount: u64) -> (r: Quote)
        requires
            self.wf(),
            self.pools@.contains_key(pool_id),
            ({
                let p = self.pools@[pool_id];
                let rs = reserves_for(p, input_token@);
                let out = swap_output(rs.0, rs.1, input_amount, p.fee_bps);
                let ideal = ideal_output(rs.0, rs.1, input_amount);
                &&& (input_token@ == p.token_a@ || input_token@ == p.token_b@)
                &&& swap_fits(rs.0, rs.1, input_amount, p.fee_bps)
                &&& ideal > 0 ==> ideal >= out
            }),
        ensures
            ({
                let p = self.pools@[pool_id];
                let rs = reserves_for(p, input_token@);
                let out = swap_output(rs.0, rs.1, input_amount, p.fee_bps);
                &&& r.input_token@ == input_token@
                &&& r.input_amount == input_amount
                &&& r.output_token@ == other_token(p, input_token@)
                &&& r.output_amount == out
                &&& r.price_impact_bps == impact_bps(ideal_output(rs.0, rs.1, input_amount), out)
                &&& r.fee_amount == fee_of(input_amount, p.fee_bps)
            }),
    {
        let pool = match self.pools.get(&pool_id) {
            Some(p) => p,
            None => {
                assert(false);
                return Quote {
                    input_token: String::new(),
                    input_amount: 0,
                    output_token: String::new(),
                    output_amount: 0,
                    price_impact_bps: 0,
                    fee_amount: 0,
                };
            },
        };
        let (reserve_in, reserve_out, a_is_input) = Self::resolve_reserves(pool, input_token);
        let (output_amount, fee_amount, _protocol_fee) = self.compute_swap(
            reserve_in,
            reserve_out,
            input_amount,
            pool.fee_bps,
        );
        let output_token = if a_is_input {
            pool.token_b.clone()
        } else {
            pool.token_a.clone()
        };
        let ideal_output = mul_div(input_amount, reserve_out, reserve_in);
        let impact_bps = if ideal_output > 0 {
            proof {
                lemma_mul_u64_fits((ideal_output - output_amount) as u64, 10_000);
            }
            ((ideal_output - output_amount) as u128 * 10_000 / ideal_output as u128) as u64
        } else {
            0
        };
        Quote {
            input_token: String::from_str(input_token),
            input_amount,
            output_token,
            output_amount,
            price_impact_bps: impact_bps,
            fee_amount,
        }
    }

    /// Swaps through the pools of `path` in turn, each hop swapping what the
    /// last one put out, and checks the final output against `min_output`.
    pub fn swap_route(
        &mut self,
        trader: &str,
        path: &[u64],
        input_token: &str,
        input_amount: u64,
        min_output: u64,
    ) -> (r: Vec<DexEvent>)
        requires
            old(self).wf(),
            path@.len() > 0,
            route_allowed(old(self).model(), old(self).protocol_fee_bps, path@, input_token@, input_amount),
            route(old(self).model(), old(self).protocol_fee_bps, path@, input_token@, input_amount).2
                >= min_output,
        ensures
            final(self).wf(),
            final(self).model() == route(
                old(self).model(),
                old(self).protocol_fee_bps,
                path@,
                input_token@,
                input_amount,
            ).0,
            r@.len() == path@.len(),
            forall|i: int|
                0 <= i < path@.len() ==> {
                    let before = route(
                        old(self).model(),
                        old(self).protocol_fee_bps,
                        path@.take(i),
                        input_token@,
                        input_amount,
                    );
                    let after = route(
                        old(self).model(),
                        old(self).protocol_fee_bps,
                        path@.take(i + 1),
                        input_token@,
                        input_amount,
                    );
                    is_swap_event(#[trigger] r@[i], path@[i], trader@, before.1, before.2, after.1, after.2)
                },
            final(self).pool_lookup == old(self).pool_lookup,
            final(self).next_pool_id == old(self).next_pool_id,
            final(self).owner == old(self).owner,
            final(self).protocol_fee_bps == old(self).protocol_fee_bps,
    {
        let ghost m0 = old(self).model();
        let ghost pfb = old(self).protocol_fee_bps;
        let mut current_token = String::from_str(input_token);
        let mut current_amount = input_amount;
        let mut events: Vec<DexEvent> = Vec::new();
        let mut i: usize = 0;
        proof {
            assert(path@.take(0) =~= Seq::<u64>::empty());
        }
        while i < path.len()
            invariant
                i <= path@.len(),
                self.wf(),
                pfb == self.protocol_fee_bps,
                route_allowed(m0, pfb, path@, input_token@, input_amount),
                ({
                    let cur = route(m0, pfb, path@.take(i as int), input_token@, input_amount);
                    &&& self.model() == cur.0
                    &&& current_token@ == cur.1
                    &&& current_amount == cur.2
                }),
                events@.len() == i,
                forall|j: int|
                    0 <= j < i ==> {
                        let before = route(m0, pfb, path@.take(j), input_token@, input_amount);
                        let after = route(m0, pfb, path@.take(j + 1), input_token@, input_amount);
                        is_swap_event(#[trigger] events@[j], path@[j], trader@, before.1, before.2, after.1, after.2)
                    },
                self.pool_lookup == old(self).pool_lookup,
                self.next_pool_id == old(self).next_pool_id,
                self.owner == old(self).owner,
            decreases path@.len() - i,
        {
            let pool_id = path[i];
            proof {
                lemma_route_prefix_allowed(m0, pfb, path@, input_token@, input_amount, i + 1);
                assert(path@.take(i + 1).drop_last() =~= path@.take(i as int));
                assert(path@.take(i + 1).last() == path@[i as int]);
            }
            let evt = self.swap_exact_in(pool_id, trader, current_token.as_str(), current_amount, 0);
            match &evt {
                DexEvent::Swap { output_token, output_amount, .. } => {
                    current_token = output_token.clone();
                    current_amount = *output_amount;
                },
                _ => {},
            }
            events.push(evt);
            i += 1;
        }
        proof {
            assert(path@.take(path@.len() as int) =~= path@);
        }
        events
    }
}

impl DexState {
    /// The best route from `input_token` to `output_token` for
    /// `input_amount`, directly or through one other token, and its output;
    /// an empty route and zero where none gives anything.
    pub fn get_best_route(&self, input_token: &str, output_token: &str, input_amount: u64) -> (r: (Vec<u64>, u64))
        requires
            self.wf(),
            self.candidates_fit(input_token@, output_token@, input_amount),
        ensures
            first_best(self.candidates(input_token@, output_token@, input_amount), r.0@, r.1),
    {
        let ghost c = self.candidates(input_token@, output_token@, input_amount);
        let direct_key = ordered_pair(input_token, output_token);
        let mut best_output: u64 = 0;
        let mut best_path: Vec<u64> = Vec::new();
        match self.pool_lookup.get(&direct_key) {
            Some(pid) => {
                let pool_id = *pid;
                let pool = match self.pools.get(&pool_id) {
                    Some(p) => p,
                    None => {
                        assert(false);
                        return (best_path, best_output);
                    },
                };
                if !pool.paused && pool.reserve_a > 0 && pool.reserve_b > 0 {
                    let (reserve_in, reserve_out, _) = Self::resolve_reserves(pool, input_token);
                    let (out, _, _) = self.compute_swap(reserve_in, reserve_out, input_amount, pool.fee_bps);
                    if out > best_output {
                        best_output = out;
                        best_path.push(pool_id);
                    }
                }
            },
            None => {},
        }
        proof {
            let c0 = Seq::<Option<(Seq<u64>, u64)>>::empty();
            assert(first_best(c0, Seq::empty(), 0));
            lemma_first_best_push(c0, c[0], Seq::empty(), 0);
            assert(c0.push(c[0]) =~= c.take(1));
            if best_output > 0 {
                assert(best_path@ =~= seq![self.pool_lookup@[ordered(input_token@, output_token@)]]);
            }
        }
        let n = self.pool_lookup.len();
        let ghost es = self.pool_lookup.entries();
        let mut i: usize = 0;
        while i < n
            invariant
                i <= n,
                n == es.len(),
                es == self.pool_lookup.entries(),
                c == self.candidates(input_token@, output_token@, input_amount),
                self.wf(),
                self.candidates_fit(input_token@, output_token@, input_amount),
                first_best(c.take(i + 1), best_path@, best_output),
            decreases n - i,
        {
            let key = self.pool_lookup.key_at(i);
            let pid1 = *self.pool_lookup.value_at(i);
            let ghost k = (key.0@, key.1@);
            let ghost x = c[i + 1];
            proof {
                assert(c[i + 1] == self.two_hop_candidate(k, pid1, input_token@, output_token@, input_amount));
                assert(self.two_hop_fits(k, pid1, input_token@, output_token@, input_amount));
                self.pool_lookup.lemma_entry(i as int);
            }
            let mut found: Option<(u64, u64)> = None;
            let pool1 = match self.pools.get(&pid1) {
                Some(p) => p,
                None => {
                    assert(false);
                    return (best_path, best_output);
                },
            };
            if !pool1.paused && pool1.reserve_a > 0 && pool1.reserve_b > 0 {
                let holds_input = str_eq(key.0.as_str(), input_token) || str_eq(key.1.as_str(), input_token);
                if holds_input {
                    let intermediate = if str_eq(key.0.as_str(), input_token) {
                        key.1.as_str()
                    } else {
                        key.0.as_str()
                    };
                    if !str_eq(intermediate, output_token) {
                        let second_key = ordered_pair(intermediate, output_token);
                        match self.pool_lookup.get(&second_key) {
                            Some(p2) => {
                                let pid2 = *p2;
                                let pool2 = match self.pools.get(&pid2) {
                                    Some(p) => p,
                                    None => {
                                        assert(false);
                                        return (best_path, best_output);
                                    },
                                };
                                if !pool2.paused && pool2.reserve_a > 0 && pool2.reserve_b > 0 {
                                    let (r_in1, r_out1, _) = Self::resolve_reserves(pool1, input_token);
                                    let (mid_out, _, _) = self.compute_swap(
                                        r_in1,
                                        r_out1,
                                        input_amount,
                                        pool1.fee_bps,
                                    );
                                    if mid_out > 0 {
                                        let (r_in2, r_out2, _) = Self::resolve_reserves(pool2, intermediate);
                                        let (final_out, _, _) = self.compute_swap(
                                            r_in2,
                                            r_out2,
                                            mid_out,
                                            pool2.fee_bps,
                                        );
                                        found = Some((pid2, final_out));
                                    }
                                }
                            },
                            None => {},
                        }
                    }
                }
            }
            proof {
                match found {
                    Some((pid2, out)) => {
                        assert(x == Some((seq![pid1, pid2], out)));
                    },
                    None => {
                        assert(x is None);
                    },
                }
                lemma_first_best_push(c.take(i + 1), x, best_path@, best_output);
                assert(c.take(i + 1).push(x) =~= c.take(i + 2));
            }
            match found {
                Some((pid2, final_out)) => {
                    if final_out > best_output {
                        best_output = final_out;
                        let mut path: Vec<u64> = Vec::new();
                        path.push(pid1);
                        path.push(pid2);
                        assert(path@ =~= seq![pid1, pid2]);
                        best_path = path;
                    }
                },
                None => {},
            }
            i += 1;
        }
        proof {
            assert(c.take(n + 1) =~= c);
        }
        (best_path, best_output)
    }
}

/// Every prefix of a route that goes through goes through.
proof fn lemma_route_prefix_allowed(m: DexModel, pfb: u64, path: Seq<u64>, token: Seq<char>, amount: u64, i: int)
    requires
        route_allowed(m, pfb, path, token, amount),
        0 <= i <= path.len(),
    ensures
        route_allowed(m, pfb, path.take(i), token, amount),
    decreases path.len(),
{
    if i == path.len() {
        assert(path.take(i) =~= path);
    } else {
        assert(path.take(i) =~= path.drop_last().take(i));
        lemma_route_prefix_allowed(m, pfb, path.drop_last(), token, amount, i);
    }
}

/// A swap of an exact input never lowers the pool's constant product:
/// the reserves after it multiply to at least what they did before.
pub proof fn law_swap_in_keeps_product(rin: u64, rout: u64, amount: u64, fee_bps: u64)
    requires
        swap_fits(rin, rout, amount, fee_bps),
    ensures
        (rin + amount) * (rout - swap_output(rin, rout, amount, fee_bps)) >= rin as int * rout as int,
{
    let f: int = 10_000 - fee_bps;
    let iwf = amount as int * f;
    let d = rin as int * 10_000 + iwf;
    let out = (rout as int * iwf) / d;
    lemma_swap_output_below_reserve(rin, rout, amount, fee_bps);
    assert(iwf >= 0 && d > 0) by (nonlinear_arith)
        requires
            0 <= f <= 10_000,
            iwf == amount as int * f,
            d == rin as int * 10_000 + iwf,
            rin > 0,
    ;
    assert(out >= 0 && out * d <= rout as int * iwf) by (nonlinear_arith)
        requires
            d > 0,
            iwf >= 0,
            out == (rout as int * iwf) / d,
    ;
    assert(swap_output(rin, rout, amount, fee_bps) == out);
    // The output is at most the no-fee share `amount / (rin + amount)` of `rout`.
    assert(out * (rin + amount) <= amount as int * rout as int) by (nonlinear_arith)
        requires
            0 <= f <= 10_000,
            iwf == amount as int * f,
            d == rin as int * 10_000 + iwf,
            out >= 0,
            out * d <= rout as int * iwf,
            rin > 0,
            amount > 0,
    {
        if f > 0 {
            assert(out * (rin * f + amount * f) <= out * d);
            assert(f * (out * (rin + amount)) <= f * (amount * rout));
        }
    }
    assert((rin + amount) * (rout - out) >= rin as int * rout as int) by (nonlinear_arith)
        requires
            out * (rin + amount) <= amount as int * rout as int,
    ;
}

/// Buying an exact output costs an input that buys at least that output at
/// the same reserves, and strictly raises the pool's constant product,
/// where that input fits in 64 bits (beyond that it is truncated).
pub proof fn law_swap_out_keeps_product(rin: u64, rout: u64, out: u64, fee_bps: u64)
    requires
        exact_out_fits(rin, rout, out, fee_bps),
        exact_input_floor(rin, rout, out, fee_bps) < u64::MAX,
    ensures
        swap_output(rin, rout, exact_input(rin, rout, out, fee_bps), fee_bps) >= out,
        (rin + exact_input(rin, rout, out, fee_bps)) * (rout - out) > rin as int * rout as int,
{
    let f: int = 10_000 - fee_bps;
    let num = rin as int * out as int * 10_000;
    let den = (rout - out) * f;
    let q = num / den;
    assert(den > 0) by (nonlinear_arith)
        requires
            out < rout,
            0 < f,
            den == (rout - out) * f,
    ;
    assert(q >= 0 && num < (q + 1) * den) by (nonlinear_arith)
        requires
            den > 0,
            num >= 0,
            q == num / den,
    ;
    assert(exact_input_floor(rin, rout, out, fee_bps) == q);
    assert(exact_input(rin, rout, out, fee_bps) == q + 1);
    let x: int = q + 1;
    // `x * (rout - out) * f > rin * out * 10000 >= rin * out * f`.
    assert(x * (rout - out) > rin as int * out as int) by (nonlinear_arith)
        requires
            num == rin as int * out as int * 10_000,
            num < x * den,
            den == (rout - out) * f,
            0 < f <= 10_000,
            x >= 1,
            out < rout,
    {
        assert(rin as int * out as int * f <= num);
        assert((x * (rout - out)) * f > (rin as int * out as int) * f);
    }
    assert((rin + x) * (rout - out) > rin as int * rout as int) by (nonlinear_arith)
        requires
            x * (rout - out) > rin as int * out as int,
            out < rout,
    ;
    // The input with its fee taken, `x * f`, pays for `out` at these reserves.
    let iwf = x * f;
    let d = rin as int * 10_000 + iwf;
    assert(rout as int * iwf >= out as int * d) by (nonlinear_arith)
        requires
            num == rin as int * out as int * 10_000,
            num < x * den,
            den == (rout - out) * f,
            iwf == x * f,
            d == rin as int * 10_000 + iwf,
    ;
    assert(d > 0 && iwf >= 0) by (nonlinear_arith)
        requires
            rin > 0,
            x >= 1,
            f > 0,
            iwf == x * f,
            d == rin as int * 10_000 + iwf,
    ;
    assert((rout as int * iwf) / d >= out) by (nonlinear_arith)
        requires
            rout as int * iwf >= out as int * d,
            d > 0,
            out >= 0,
    ;
    assert((rout as int * iwf) / d <= rout) by (nonlinear_arith)
        requires
            iwf <= d,
            d > 0,
            rout >= 0,
            iwf >= 0,
    ;
    assert(swap_output(rin, rout, x as u64, fee_bps) == (rout as int * iwf) / d);
}

/// Withdrawing every LP token of a pool takes out its whole reserves, so
/// the only provider of a pool gets back exactly what it deposited.
pub proof fn law_full_withdrawal_returns_reserves(total_lp_tokens: u64, reserve_a: u64, reserve_b: u64)
    requires
        total_lp_tokens > 0,
    ensures
        lp_share(total_lp_tokens, reserve_a, total_lp_tokens) == reserve_a,
        lp_share(total_lp_tokens, reserve_b, total_lp_tokens) == reserve_b,
{
    assert((total_lp_tokens as int * reserve_a as int) / (total_lp_tokens as int) == reserve_a) by (nonlinear_arith)
        requires
            total_lp_tokens > 0,
    ;
    assert((total_lp_tokens as int * reserve_b as int) / (total_lp_tokens as int) == reserve_b) by (nonlinear_arith)
        requires
            total_lp_tokens > 0,
    ;
}

/// A later deposit mints no more LP tokens than either proportional share
/// allows, so no provider's claim on either reserve shrinks through another's
/// deposit; and it mints the largest number that both shares allow.
pub proof fn law_lp_minted_within_shares(p: Pool, amount_a: u64, amount_b: u64)
    requires
        p.total_lp_tokens > 0,
        p.reserve_a > 0,
        p.reserve_b > 0,
        (amount_a as int * p.total_lp_tokens as int) / (p.reserve_a as int) <= u64::MAX
            || (amount_b as int * p.total_lp_tokens as int) / (p.reserve_b as int) <= u64::MAX,
    ensures
        lp_minted(p, amount_a, amount_b) as int * p.reserve_a <= amount_a as int * p.total_lp_tokens,
        lp_minted(p, amount_a, amount_b) as int * p.reserve_b <= amount_b as int * p.total_lp_tokens,
        (lp_minted(p, amount_a, amount_b) as int + 1) * p.reserve_a > amount_a as int * p.total_lp_tokens
            || (lp_minted(p, amount_a, amount_b) as int + 1) * p.reserve_b > amount_b as int
            * p.total_lp_tokens,
{
    let t = p.total_lp_tokens as int;
    let ra = p.reserve_a as int;
    let rb = p.reserve_b as int;
    let na = amount_a as int * t;
    let nb = amount_b as int * t;
    let la = na / ra;
    let lb = nb / rb;
    assert(la * ra <= na && na < (la + 1) * ra && la >= 0) by (nonlinear_arith)
        requires
            ra > 0,
            na >= 0,
            la == na / ra,
    ;
    assert(lb * rb <= nb && nb < (lb + 1) * rb && lb >= 0) by (nonlinear_arith)
        requires
            rb > 0,
            nb >= 0,
            lb == nb / rb,
    ;
    let m = if la < lb { la } else { lb };
    assert(lp_minted(p, amount_a, amount_b) as int == m);
    assert(m * ra <= na) by (nonlinear_arith)
        requires
            m <= la,
            la * ra <= na,
            ra > 0,
    ;
    assert(m * rb <= nb) by (nonlinear_arith)
        requires
            m <= lb,
            lb * rb <= nb,
            rb > 0,
    ;
}

/// The pool that trades the pair directly is always weighed: where it is
/// neither paused nor empty, the best route gives at least what swapping
/// straight through it gives.
pub proof fn law_best_route_beats_direct(
    s: DexState,
    input: Seq<char>,
    output: Seq<char>,
    amount: u64,
    path: Seq<u64>,
    out: u64,
)
    requires
        first_best(s.candidates(input, output, amount), path, out),
        s.pool_lookup@.contains_key(ordered(input, output)),
        !s.pools@[s.pool_lookup@[ordered(input, output)]].paused,
        s.pools@[s.pool_lookup@[ordered(input, output)]].reserve_a > 0,
        s.pools@[s.pool_lookup@[ordered(input, output)]].reserve_b > 0,
    ensures
        ({
            let p = s.pools@[s.pool_lookup@[ordered(input, output)]];
            let (rin, rout) = if input == p.token_a@ {
                (p.reserve_a, p.reserve_b)
            } else {
                (p.reserve_b, p.reserve_a)
            };
            out >= swap_output(rin, rout, amount, p.fee_bps)
        }),
{
    let c = s.candidates(input, output, amount);
    assert(c[0] == s.direct_candidate(input, output, amount));
    assert(c[0] is Some);
}

} // verus!
