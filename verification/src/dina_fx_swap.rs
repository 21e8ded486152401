//! Foreign-exchange swaps between currency pools, priced by oracle rates
//! (micro-units of each currency per USDC).
use vstd::prelude::*;
use crate::addr::{addr_in, push_addr_once, remove_addr};
use crate::keymap::KeyMap;
use crate::math::{lemma_mul_u64_fits, mul_div, sat_add, sat_sub};

verus! {

/// The state of the swap contract.
#[derive(Clone, Debug)]
pub struct FxSwapState {
    pub admin: [u8; 32],
    /// Pool balances by currency symbol, in ascending symbol order.
    pub pools: KeyMap<String, u64>,
    /// USDC reserves backing all pools.
    pub usdc_reserves: u64,
    /// Oracle rates by symbol: micro-units of the currency per USDC.
    pub oracle_rates: KeyMap<String, u64>,
    pub oracle_updaters: Vec<[u8; 32]>,
    /// Time of the last oracle update by symbol.
    pub oracle_timestamps: KeyMap<String, u64>,
    /// Largest swap as a share of a pool, in basis points; zero for no limit.
    pub max_swap_bps: u64,
    /// Oldest oracle rate a swap accepts, in seconds.
    pub max_oracle_age: u64,
    /// Volume swapped, in micro-USDC.
    pub total_volume_usdc: u64,
    pub paused: bool,
}

/// `amount` of a currency at `from_rate` converted to one at `to_rate`.
pub open spec fn convert(amount: u64, from_rate: u64, to_rate: u64) -> u64 {
    ((amount as int * to_rate as int) / (from_rate as int)) as u64
}

/// The share `bps` (in basis points) of `pool`.
pub open spec fn share_of(pool: u64, bps: u64) -> u64 {
    ((pool as int * bps as int) / 10_000) as u64
}

/// The USDC value of the pools of a run of entries that have a rate.
pub open spec fn pools_value(s: Seq<(String, u64)>, rates: Map<Seq<char>, u64>) -> int
    decreases s.len(),
{
    if s.len() == 0 {
        0
    } else {
        let e = s.last();
        pools_value(s.drop_last(), rates) + if rates.contains_key(e.0@) {
            (e.1 as int * 1_000_000) / (rates[e.0@] as int)
        } else {
            0
        }
    }
}

impl FxSwapState {
    pub open spec fn wf(&self) -> bool {
        &&& self.pools.wf()
        &&& self.pools.sorted()
        &&& self.oracle_rates.wf()
        &&& self.oracle_timestamps.wf()
        &&& forall|c: Seq<char>| #[trigger] self.oracle_rates@.contains_key(c) ==> self.oracle_rates@[c] > 0
    }

    /// The pool of `c`, zero where there is none.
    pub open spec fn pool(&self, c: Seq<char>) -> u64 {
        self.pools.get_or(c, 0)
    }

    /// The quote for `amount` of `from` in `to` at the oracle rates.
    pub open spec fn quote(&self, from: Seq<char>, to: Seq<char>, amount: u64) -> u64 {
        convert(amount, self.oracle_rates@[from], self.oracle_rates@[to])
    }

    /// Whether a swap of `amount` from `from` to `to` goes through at
    /// `timestamp` with at least `min_output` out: the contract runs, both
    /// rates are fresh, the source stays within its size limit, the output
    /// meets the minimum and fits the target pool and its size limit, and the
    /// source pool can take the amount.
    pub open spec fn swap_allowed(
        &self,
        from: Seq<char>,
        to: Seq<char>,
        amount: u64,
        min_output: u64,
        timestamp: u64,
    ) -> bool {
        let output = self.quote(from, to, amount);
        let to_pool = self.pool(to);
        let from_max = share_of(self.pool(from), self.max_swap_bps);
        let max_output = share_of(to_pool, self.max_swap_bps);
        &&& !self.paused
        &&& amount > 0
        &&& from != to
        &&& self.oracle_timestamps@.contains_key(from)
        &&& self.oracle_timestamps@.contains_key(to)
        &&& sat_sub(timestamp, self.oracle_timestamps@[from]) <= self.max_oracle_age
        &&& sat_sub(timestamp, self.oracle_timestamps@[to]) <= self.max_oracle_age
        &&& to_pool > 0
        &&& (self.max_swap_bps > 0 ==> amount <= from_max || from_max == 0)
        &&& self.oracle_rates@.contains_key(from)
        &&& self.oracle_rates@.contains_key(to)
        &&& output >= min_output
        &&& (self.max_swap_bps > 0 ==> output <= max_output || max_output == 0)
        &&& to_pool >= output
        &&& self.pool(from) + amount <= u64::MAX
    }

    /// A contract with no pools, whose admin is its only oracle updater.
    pub fn new(admin: [u8; 32], max_swap_bps: u64, max_oracle_age: u64) -> (s: Self)
        ensures
            s.wf(),
            s.admin == admin,
            s.pools@ == Map::<Seq<char>, u64>::empty(),
            s.usdc_reserves == 0,
            s.oracle_rates@ == Map::<Seq<char>, u64>::empty(),
            s.oracle_updaters@ == seq![admin],
            s.oracle_timestamps@ == Map::<Seq<char>, u64>::empty(),
            s.max_swap_bps == max_swap_bps,
            s.max_oracle_age == max_oracle_age,
            s.total_volume_usdc == 0,
            !s.paused,
    {
        let pools = KeyMap::new();
        proof {
            pools.lemma_new_sorted();
        }
        let mut updaters: Vec<[u8; 32]> = Vec::new();
        updaters.push(admin);
        FxSwapState {
            admin,
            pools,
            usdc_reserves: 0,
            oracle_rates: KeyMap::new(),
            oracle_updaters: updaters,
            oracle_timestamps: KeyMap::new(),
            max_swap_bps,
            max_oracle_age,
            total_volume_usdc: 0,
            paused: false,
        }
    }

    /// Whether `addr` may set oracle rates.
    pub fn is_oracle_updater(&self, addr: &[u8; 32]) -> (r: bool)
        ensures
            r == self.oracle_updaters@.contains(*addr),
    {
        addr_in(&self.oracle_updaters, addr)
    }

    /// Records the oracle rate of `symbol` at `timestamp`, which may not be
    /// older than the last one recorded for it.
    pub fn update_oracle_rate(&mut self, caller: [u8; 32], symbol: String, rate: u64, timestamp: u64)
        requires
            old(self).wf(),
            old(self).oracle_updaters@.contains(caller),
            rate > 0,
            old(self).oracle_timestamps@.contains_key(symbol@) ==> timestamp
                >= old(self).oracle_timestamps@[symbol@],
        ensures
            final(self).wf(),
            final(self).oracle_rates@ == old(self).oracle_rates@.insert(symbol@, rate),
            final(self).oracle_timestamps@ == old(self).oracle_timestamps@.insert(symbol@, timestamp),
            *final(self) == (FxSwapState {
                oracle_rates: final(self).oracle_rates,
                oracle_timestamps: final(self).oracle_timestamps,
                ..*old(self)
            }),
    {
        self.oracle_rates.insert(symbol.clone(), rate);
        self.oracle_timestamps.insert(symbol, timestamp);
    }

    /// Lets `updater` set oracle rates.
    pub fn add_oracle_updater(&mut self, caller: [u8; 32], updater: [u8; 32])
        requires
            caller == old(self).admin,
        ensures
            old(self).oracle_updaters@.contains(updater) ==> final(self).oracle_updaters@ == old(
                self,
            ).oracle_updaters@,
            !old(self).oracle_updaters@.contains(updater) ==> final(self).oracle_updaters@ == old(
                self,
            ).oracle_updaters@.push(updater),
            *final(self) == (FxSwapState { oracle_updaters: final(self).oracle_updaters, ..*old(self) }),
    {
        push_addr_once(&mut self.oracle_updaters, updater);
    }

    /// Stops `updater` from setting oracle rates.
    pub fn remove_oracle_updater(&mut self, caller: [u8; 32], updater: [u8; 32])
        requires
            caller == old(self).admin,
        ensures
            final(self).oracle_updaters@ == old(self).oracle_updaters@.filter(
                |x: [u8; 32]| x != updater,
            ),
            *final(self) == (FxSwapState { oracle_updaters: final(self).oracle_updaters, ..*old(self) }),
    {
        remove_addr(&mut self.oracle_updaters, &updater);
    }

    /// Adds `amount` to the pool of `symbol`.
    pub fn add_liquidity(&mut self, caller: [u8; 32], symbol: String, amount: u64)
        requires
            old(self).wf(),
            caller == old(self).admin,
            amount > 0,
            old(self).pool(symbol@) + amount <= u64::MAX,
        ensures
            final(self).wf(),
            final(self).pools@ == old(self).pools@.insert(symbol@, (old(self).pool(symbol@) + amount) as u64),
            *final(self) == (FxSwapState { pools: final(self).pools, ..*old(self) }),
    {
        let pool = self.pools.get_or_zero(&symbol);
        self.pools.insert_sorted(symbol, pool + amount);
    }

    /// Takes `amount` out of the existing pool of `symbol`.
    pub fn remove_liquidity(&mut self, caller: [u8; 32], symbol: String, amount: u64)
        requires
            old(self).wf(),
            caller == old(self).admin,
            old(self).pools@.contains_key(symbol@),
            old(self).pools@[symbol@] >= amount,
        ensures
            final(self).wf(),
            final(self).pools@ == old(self).pools@.insert(symbol@, (old(self).pools@[symbol@] - amount) as u64),
            *final(self) == (FxSwapState { pools: final(self).pools, ..*old(self) }),
    {
        let pool = self.pools.get_or_zero(&symbol);
        self.pools.insert_sorted(symbol, pool - amount);
    }

    /// Adds `amount` to the USDC reserves.
    pub fn add_usdc_reserves(&mut self, caller: [u8; 32], amount: u64)
        requires
            caller == old(self).admin,
            old(self).usdc_reserves + amount <= u64::MAX,
        ensures
            *final(self) == (FxSwapState {
                usdc_reserves: (old(self).usdc_reserves + amount) as u64,
                ..*old(self)
            }),
    {
        self.usdc_reserves = self.usdc_reserves + amount;
    }

    /// The rate of a symbol that has one.
    fn rate_of(&self, symbol: &String) -> (r: u64)
        requires
            self.wf(),
            self.oracle_rates@.contains_key(symbol@),
        ensures
            r == self.oracle_rates@[symbol@],
            r > 0,
    {
        match self.oracle_rates.get(symbol) {
            Some(r) => *r,
            None => 0,
        }
    }

    /// What `amount` of `from_symbol` buys of `to_symbol` at the oracle rates.
    pub fn get_quote(&self, from_symbol: &str, to_symbol: &str, amount: u64) -> (r: u64)
        requires
            self.wf(),
            self.oracle_rates@.contains_key(from_symbol@),
            self.oracle_rates@.contains_key(to_symbol@),
        ensures
            r == self.quote(from_symbol@, to_symbol@, amount),
    {
        let from = String::from_str(from_symbol);
        let to = String::from_str(to_symbol);
        let from_rate = self.rate_of(&from);
        let to_rate = self.rate_of(&to);
        mul_div(amount, to_rate, from_rate)
    }

    /// Swaps `amount` of `from_symbol` for `to_symbol` at the oracle rates:
    /// the amount goes into the source pool and the output comes out of the
    /// target pool. Returns the output.
    pub fn swap(
        &mut self,
        _caller: [u8; 32],
        from_symbol: String,
        to_symbol: String,
        amount: u64,
        min_output: u64,
        timestamp: u64,
    ) -> (r: u64)
        requires
            old(self).wf(),
            old(self).swap_allowed(from_symbol@, to_symbol@, amount, min_output, timestamp),
        ensures
            final(self).wf(),
            r == old(self).quote(from_symbol@, to_symbol@, amount),
            final(self).pools@ == old(self).pools@.insert(
                from_symbol@,
                (old(self).pool(from_symbol@) + amount) as u64,
            ).insert(to_symbol@, (old(self).pool(to_symbol@) - r) as u64),
            final(self).total_volume_usdc == sat_add(
                old(self).total_volume_usdc,
                convert(amount, old(self).oracle_rates@[from_symbol@], 1_000_000),
            ),
            *final(self) == (FxSwapState {
                pools: final(self).pools,
                total_volume_usdc: final(self).total_volume_usdc,
                ..*old(self)
            }),
    {
        let to_pool = self.pools.get_or_zero(&to_symbol);
        let output = self.get_quote(from_symbol.as_str(), to_symbol.as_str(), amount);
        let from_pool = self.pools.get_or_zero(&from_symbol);
        self.pools.insert_sorted(from_symbol.clone(), from_pool + amount);
        proof {
            assert(self.pools@.contains_key(to_symbol@) == old(self).pools@.contains_key(to_symbol@));
        }
        self.pools.insert_sorted(to_symbol, to_pool - output);
        let from_rate = self.rate_of(&from_symbol);
        let usdc_volume = mul_div(amount, 1_000_000, from_rate);
        self.total_volume_usdc = self.total_volume_usdc.saturating_add(usdc_volume);
        output
    }

    /// The USDC reserves, the USDC value of the pools that have a rate
    /// (truncated to 64 bits), and whether the reserves cover that value.
    pub fn proof_of_reserves(&self) -> (r: (u64, u64, bool))
        requires
            self.wf(),
            pools_value(self.pools.entries(), self.oracle_rates@) <= u128::MAX,
        ensures
            r.0 == self.usdc_reserves,
            r.1 == pools_value(self.pools.entries(), self.oracle_rates@) as u64,
            r.2 == (self.usdc_reserves >= r.1),
    {
        let n = self.pools.len();
        let ghost es = self.pools.entries();
        let mut total_value: u128 = 0;
        let mut i: usize = 0;
        while i < n
            invariant
                i <= n,
                n == es.len(),
                es == self.pools.entries(),
                self.wf(),
                total_value == pools_value(es.take(i as int), self.oracle_rates@),
                pools_value(es, self.oracle_rates@) <= u128::MAX,
            decreases n - i,
        {
            let symbol = self.pools.key_at(i);
            let pool_amount = *self.pools.value_at(i);
            proof {
                assert(es.take(i + 1).drop_last() =~= es.take(i as int));
                assert(es.take(i + 1).last() == es[i as int]);
                lemma_pools_value_prefix(es, self.oracle_rates@, i + 1);
            }
            match self.oracle_rates.get(symbol) {
                Some(rate) => {
                    proof {
                        lemma_mul_u64_fits(pool_amount, 1_000_000);
                    }
                    let value = pool_amount as u128 * 1_000_000 / *rate as u128;
                    total_value = total_value + value;
                },
                None => {},
            }
            i += 1;
        }
        proof {
            assert(es.take(n as int) =~= es);
        }
        let total_value = total_value as u64;
        let backed = self.usdc_reserves >= total_value;
        (self.usdc_reserves, total_value, backed)
    }

    pub fn pause(&mut self, caller: [u8; 32])
        requires
            caller == old(self).admin,
        ensures
            *final(self) == (FxSwapState { paused: true, ..*old(self) }),
    {
        self.paused = true;
    }

    pub fn unpause(&mut self, caller: [u8; 32])
        requires
            caller == old(self).admin,
        ensures
            *final(self) == (FxSwapState { paused: false, ..*old(self) }),
    {
        self.paused = false;
    }
}

/// The value of the pools grows along the entries: each prefix is worth at
/// most the whole.
pub proof fn lemma_pools_value_prefix(s: Seq<(String, u64)>, rates: Map<Seq<char>, u64>, i: int)
    requires
        0 <= i <= s.len(),
        forall|c: Seq<char>| #[trigger] rates.contains_key(c) ==> rates[c] > 0,
    ensures
        0 <= pools_value(s.take(i), rates) <= pools_value(s, rates),
    decreases s.len(),
{
    if s.len() > 0 {
        let e = s.last();
        if rates.contains_key(e.0@) {
            assert((e.1 as int * 1_000_000) / (rates[e.0@] as int) >= 0) by (nonlinear_arith)
                requires
                    rates[e.0@] > 0,
            ;
        }
        if i == s.len() {
            assert(s.take(i) =~= s);
            lemma_pools_value_prefix(s.drop_last(), rates, i - 1);
            assert(s.drop_last().take(i - 1) =~= s.drop_last());
        } else {
            assert(s.take(i) =~= s.drop_last().take(i));
            lemma_pools_value_prefix(s.drop_last(), rates, i);
        }
    }
}

/// Swapping there and back at unchanged rates never yields more than was put
/// in.
pub proof fn law_round_trip_no_profit(amount: u64, from_rate: u64, to_rate: u64)
    requires
        from_rate > 0,
        to_rate > 0,
        (amount as int * to_rate as int) / (from_rate as int) <= u64::MAX,
    ensures
        convert(convert(amount, from_rate, to_rate), to_rate, from_rate) <= amount,
{
    let out = (amount as int * to_rate as int) / (from_rate as int);
    assert(0 <= out && out * from_rate <= amount as int * to_rate as int) by (nonlinear_arith)
        requires
            out == (amount as int * to_rate as int) / (from_rate as int),
            from_rate > 0,
    ;
    assert(convert(amount, from_rate, to_rate) == out);
    assert((out * from_rate as int) / (to_rate as int) <= amount as int) by (nonlinear_arith)
        requires
            0 <= out,
            out * from_rate <= amount as int * to_rate as int,
            to_rate > 0,
    ;
}

} // verus!
