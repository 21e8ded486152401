//! A USDC-backed currency stablecoin whose balances earn yield: each
//! balance is credited its yield when it next changes.
use vstd::prelude::*;
use crate::keymap::KeyMap;
use crate::math::{accrued_yield, mul_div, sat_add, yield_on};

verus! {

pub const SECONDS_PER_YEAR: u64 = 31_536_000;
pub const BPS_DENOMINATOR: u64 = 10_000;

/// The state of a stablecoin.
#[derive(Clone, Debug)]
pub struct StablecoinState {
    pub name: String,
    pub symbol: String,
    pub decimals: u8,
    pub admin: [u8; 32],
    pub total_supply: u64,
    pub balances: KeyMap<[u8; 32], u64>,
    pub allowances: KeyMap<([u8; 32], [u8; 32]), u64>,
    pub usdc_backing: u64,
    pub rate_per_usdc: u64,
    pub yield_rate_bps: u64,
    pub yield_last_update: KeyMap<[u8; 32], u64>,
    pub paused: bool,
}

/// The value stored for `k`, or `d`.
pub open spec fn map_get(m: Map<Seq<u8>, u64>, k: Seq<u8>, d: u64) -> u64 {
    if m.contains_key(k) {
        m[k]
    } else {
        d
    }
}

/// The balances, total supply and last-update times once the yield of
/// account `a` is settled at `now`.
pub open spec fn settle(
    balances: Map<Seq<u8>, u64>,
    supply: u64,
    last: Map<Seq<u8>, u64>,
    rate_bps: u64,
    a: Seq<u8>,
    now: u64,
) -> (Map<Seq<u8>, u64>, u64, Map<Seq<u8>, u64>) {
    let balance = map_get(balances, a, 0);
    let since = map_get(last, a, now);
    if balance == 0 || now <= since {
        (balances, supply, last)
    } else {
        let accrued = yield_on(balance, rate_bps, (now - since) as u64);
        if accrued > 0 {
            (balances.insert(a, sat_add(balance, accrued)), sat_add(supply, accrued), last.insert(a, now))
        } else {
            (balances, supply, last.insert(a, now))
        }
    }
}

/// `last` with `now` recorded for `a` unless it already has a time.
pub open spec fn or_insert(last: Map<Seq<u8>, u64>, a: Seq<u8>, now: u64) -> Map<Seq<u8>, u64> {
    if last.contains_key(a) {
        last
    } else {
        last.insert(a, now)
    }
}

impl StablecoinState {
    pub open spec fn wf(&self) -> bool {
        self.balances.wf() && self.allowances.wf() && self.yield_last_update.wf()
    }

    pub open spec fn balance(&self, a: [u8; 32]) -> u64 {
        self.balances.get_or(a@, 0)
    }

    pub open spec fn allowed(&self, owner: [u8; 32], spender: [u8; 32]) -> u64 {
        self.allowances.get_or((owner@, spender@), 0)
    }

    /// The balances, total supply and last-update times.
    pub open spec fn ledger(&self) -> (Map<Seq<u8>, u64>, u64, Map<Seq<u8>, u64>) {
        (self.balances@, self.total_supply, self.yield_last_update@)
    }

    /// The ledger once the yield of `a` is settled at `now`.
    pub open spec fn settled(&self, a: [u8; 32], now: u64) -> (Map<Seq<u8>, u64>, u64, Map<Seq<u8>, u64>) {
        settle(self.balances@, self.total_supply, self.yield_last_update@, self.yield_rate_bps, a@, now)
    }

    /// A stablecoin with no supply.
    pub fn new(
        name: String,
        symbol: String,
        decimals: u8,
        admin: [u8; 32],
        rate_per_usdc: u64,
        yield_rate_bps: u64,
    ) -> (s: Self)
        ensures
            s.wf(),
            s.name == name,
            s.symbol == symbol,
            s.decimals == decimals,
            s.admin == admin,
            s.total_supply == 0,
            s.balances@ == Map::<Seq<u8>, u64>::empty(),
            s.allowances@ == Map::<(Seq<u8>, Seq<u8>), u64>::empty(),
            s.usdc_backing == 0,
            s.rate_per_usdc == rate_per_usdc,
            s.yield_rate_bps == yield_rate_bps,
            s.yield_last_update@ == Map::<Seq<u8>, u64>::empty(),
            !s.paused,
    {
        StablecoinState {
            name,
            symbol,
            decimals,
            admin,
            total_supply: 0,
            balances: KeyMap::new(),
            allowances: KeyMap::new(),
            usdc_backing: 0,
            rate_per_usdc,
            yield_rate_bps,
            yield_last_update: KeyMap::new(),
            paused: false,
        }
    }

    pub fn name(&self) -> (r: &str)
        ensures
            r@ == self.name@,
    {
        self.name.as_str()
    }

    pub fn symbol(&self) -> (r: &str)
        ensures
            r@ == self.symbol@,
    {
        self.symbol.as_str()
    }

    pub fn decimals(&self) -> (r: u8)
        ensures
            r == self.decimals,
    {
        self.decimals
    }

    pub fn total_supply(&self) -> (r: u64)
        ensures
            r == self.total_supply,
    {
        self.total_supply
    }

    pub fn balance_of(&self, addr: &[u8; 32]) -> (r: u64)
        requires
            self.wf(),
        ensures
            r == self.balance(*addr),
    {
        self.balances.get_or_zero(addr)
    }

    pub fn allowance(&self, owner: &[u8; 32], spender: &[u8; 32]) -> (r: u64)
        requires
            self.wf(),
        ensures
            r == self.allowed(*owner, *spender),
    {
        self.allowances.get_or_zero(&(*owner, *spender))
    }

    /// Credits `addr` the yield it earned since its last update.
    pub fn settle_yield(&mut self, addr: &[u8; 32], current_time: u64)
        requires
            old(self).wf(),
        ensures
            final(self).wf(),
            final(self).ledger() == old(self).settled(*addr, current_time),
            *final(self) == (StablecoinState {
                balances: final(self).balances,
                total_supply: final(self).total_supply,
                yield_last_update: final(self).yield_last_update,
                ..*old(self)
            }),
    {
        let balance = self.balance_of(addr);
        if balance == 0 {
            return;
        }
        let last = match self.yield_last_update.get(addr) {
            Some(t) => *t,
            None => current_time,
        };
        if current_time <= last {
            return;
        }
        let elapsed = current_time - last;
        let accrued = accrued_yield(balance, self.yield_rate_bps, elapsed);
        if accrued > 0 {
            let new_bal = balance.saturating_add(accrued);
            self.balances.insert(*addr, new_bal);
            self.total_supply = self.total_supply.saturating_add(accrued);
        }
        self.yield_last_update.insert(*addr, current_time);
    }

    /// The admin mints `amount` for `to`, backed by `usdc_backing_amount`,
    /// after settling `to`'s yield.
    pub fn mint(
        &mut self,
        caller: [u8; 32],
        to: [u8; 32],
        amount: u64,
        usdc_backing_amount: u64,
        current_time: u64,
    )
        requires
            old(self).wf(),
            caller == old(self).admin,
            !old(self).paused,
            amount > 0,
            map_get(old(self).settled(to, current_time).0, to@, 0) + amount <= u64::MAX,
            old(self).settled(to, current_time).1 + amount <= u64::MAX,
            old(self).usdc_backing + usdc_backing_amount <= u64::MAX,
        ensures
            final(self).wf(),
            ({
                let l = old(self).settled(to, current_time);
                &&& final(self).balances@ == l.0.insert(to@, (map_get(l.0, to@, 0) + amount) as u64)
                &&& final(self).total_supply == l.1 + amount
                &&& final(self).yield_last_update@ == or_insert(l.2, to@, current_time)
                &&& final(self).usdc_backing == old(self).usdc_backing + usdc_backing_amount
            }),
            *final(self) == (StablecoinState {
                balances: final(self).balances,
                total_supply: final(self).total_supply,
                yield_last_update: final(self).yield_last_update,
                usdc_backing: final(self).usdc_backing,
                ..*old(self)
            }),
    {
        self.settle_yield(&to, current_time);
        let bal = self.balance_of(&to);
        self.balances.insert(to, bal + amount);
        self.total_supply = self.total_supply + amount;
        self.usdc_backing = self.usdc_backing + usdc_backing_amount;
        if !self.yield_last_update.contains_key(&to) {
            self.yield_last_update.insert(to, current_time);
        }
    }

    /// The admin burns `amount` of `from`, releasing up to
    /// `usdc_backing_amount` of backing, after settling `from`'s yield.
    pub fn burn(
        &mut self,
        caller: [u8; 32],
        from: [u8; 32],
        amount: u64,
        usdc_backing_amount: u64,
        current_time: u64,
    )
        requires
            old(self).wf(),
            caller == old(self).admin,
            amount > 0,
            map_get(old(self).settled(from, current_time).0, from@, 0) >= amount,
            old(self).settled(from, current_time).1 >= amount,
        ensures
            final(self).wf(),
            ({
                let l = old(self).settled(from, current_time);
                &&& final(self).balances@ == l.0.insert(from@, (map_get(l.0, from@, 0) - amount) as u64)
                &&& final(self).total_supply == l.1 - amount
                &&& final(self).yield_last_update@ == l.2
                &&& final(self).usdc_backing == (if old(self).usdc_backing >= usdc_backing_amount {
                    old(self).usdc_backing - usdc_backing_amount
                } else {
                    0
                })
            }),
            *final(self) == (StablecoinState {
                balances: final(self).balances,
                total_supply: final(self).total_supply,
                yield_last_update: final(self).yield_last_update,
                usdc_backing: final(self).usdc_backing,
                ..*old(self)
            }),
    {
        self.settle_yield(&from, current_time);
        let bal = self.balance_of(&from);
        self.balances.insert(from, bal - amount);
        self.total_supply = self.total_supply - amount;
        self.usdc_backing = self.usdc_backing.saturating_sub(usdc_backing_amount);
    }

    /// Moves `amount` from the caller to another account, after settling both yields.
    pub fn transfer(&mut self, caller: [u8; 32], to: [u8; 32], amount: u64, current_time: u64)
        requires
            old(self).wf(),
            !old(self).paused,
            amount > 0,
            caller != to,
            ({
                let l1 = old(self).settled(caller, current_time);
                let l2 = settle(l1.0, l1.1, l1.2, old(self).yield_rate_bps, to@, current_time);
                &&& map_get(l2.0, caller@, 0) >= amount
                &&& map_get(l2.0, to@, 0) + amount <= u64::MAX
            }),
        ensures
            final(self).wf(),
            ({
                let l1 = old(self).settled(caller, current_time);
                let l2 = settle(l1.0, l1.1, l1.2, old(self).yield_rate_bps, to@, current_time);
                &&& final(self).balances@ == l2.0.insert(
                    caller@,
                    (map_get(l2.0, caller@, 0) - amount) as u64,
                ).insert(to@, (map_get(l2.0, to@, 0) + amount) as u64)
                &&& final(self).total_supply == l2.1
                &&& final(self).yield_last_update@ == or_insert(l2.2, to@, current_time)
            }),
            *final(self) == (StablecoinState {
                balances: final(self).balances,
                total_supply: final(self).total_supply,
                yield_last_update: final(self).yield_last_update,
                ..*old(self)
            }),
    {
        self.settle_yield(&caller, current_time);
        self.settle_yield(&to, current_time);
        let from_bal = self.balance_of(&caller);
        let to_bal = self.balance_of(&to);
        self.balances.insert(caller, from_bal - amount);
        self.balances.insert(to, to_bal + amount);
        if !self.yield_last_update.contains_key(&to) {
            self.yield_last_update.insert(to, current_time);
        }
    }

    /// Sets the allowance of `spender` over the caller's balance.
    pub fn approve(&mut self, caller: [u8; 32], spender: [u8; 32], amount: u64)
        requires
            old(self).wf(),
        ensures
            final(self).wf(),
            final(self).allowances@ == old(self).allowances@.insert((caller@, spender@), amount),
            *final(self) == (StablecoinState { allowances: final(self).allowances, ..*old(self) }),
    {
        self.allowances.insert((caller, spender), amount);
    }

    /// Moves `amount` from `from` to `to` on the caller's allowance, after
    /// settling both yields. Both balances are read before either is written.
    pub fn transfer_from(
        &mut self,
        caller: [u8; 32],
        from: [u8; 32],
        to: [u8; 32],
        amount: u64,
        current_time: u64,
    )
        requires
            old(self).wf(),
            !old(self).paused,
            amount > 0,
            old(self).allowed(from, caller) >= amount,
            ({
                let l1 = old(self).settled(from, current_time);
                let l2 = settle(l1.0, l1.1, l1.2, old(self).yield_rate_bps, to@, current_time);
                &&& map_get(l2.0, from@, 0) >= amount
                &&& map_get(l2.0, to@, 0) + amount <= u64::MAX
            }),
        ensures
            final(self).wf(),
            ({
                let l1 = old(self).settled(from, current_time);
                let l2 = settle(l1.0, l1.1, l1.2, old(self).yield_rate_bps, to@, current_time);
                &&& final(self).balances@ == l2.0.insert(
                    from@,
                    (map_get(l2.0, from@, 0) - amount) as u64,
                ).insert(to@, (map_get(l2.0, to@, 0) + amount) as u64)
                &&& final(self).total_supply == l2.1
                &&& final(self).yield_last_update@ == l2.2
                &&& final(self).allowances@ == old(self).allowances@.insert(
                    (from@, caller@),
                    (old(self).allowed(from, caller) - amount) as u64,
                )
            }),
            *final(self) == (StablecoinState {
                balances: final(self).balances,
                total_supply: final(self).total_supply,
                yield_last_update: final(self).yield_last_update,
                allowances: final(self).allowances,
                ..*old(self)
            }),
    {
        let allowed = self.allowance(&from, &caller);
        self.settle_yield(&from, current_time);
        self.settle_yield(&to, current_time);
        let from_bal = self.balance_of(&from);
        let to_bal = self.balance_of(&to);
        self.balances.insert(from, from_bal - amount);
        self.balances.insert(to, to_bal + amount);
        self.allowances.insert((from, caller), allowed - amount);
    }

    pub fn update_rate(&mut self, caller: [u8; 32], new_rate: u64)
        requires
            caller == old(self).admin,
            new_rate > 0,
        ensures
            *final(self) == (StablecoinState { rate_per_usdc: new_rate, ..*old(self) }),
    {
        self.rate_per_usdc = new_rate;
    }

    pub fn update_yield_rate(&mut self, caller: [u8; 32], new_yield_bps: u64)
        requires
            caller == old(self).admin,
        ensures
            *final(self) == (StablecoinState { yield_rate_bps: new_yield_bps, ..*old(self) }),
    {
        self.yield_rate_bps = new_yield_bps;
    }

    /// The USDC backing, the supply valued in USDC at the current rate, and
    /// whether the backing covers it.
    pub fn proof_of_reserves(&self) -> (r: (u64, u64, bool))
        ensures
            r.0 == self.usdc_backing,
            r.1 == (if self.rate_per_usdc > 0 {
                ((self.total_supply as int * 1_000_000) / (self.rate_per_usdc as int)) as u64
            } else {
                0
            }),
            r.2 == (self.usdc_backing >= r.1),
    {
        let supply_in_usdc = if self.rate_per_usdc > 0 {
            mul_div(self.total_supply, 1_000_000, self.rate_per_usdc)
        } else {
            0
        };
        let is_fully_backed = self.usdc_backing >= supply_in_usdc;
        (self.usdc_backing, supply_in_usdc, is_fully_backed)
    }

    pub fn pause(&mut self, caller: [u8; 32])
        requires
            caller == old(self).admin,
        ensures
            *final(self) == (StablecoinState { paused: true, ..*old(self) }),
    {
        self.paused = true;
    }

    pub fn unpause(&mut self, caller: [u8; 32])
        requires
            caller == old(self).admin,
        ensures
            *final(self) == (StablecoinState { paused: false, ..*old(self) }),
    {
        self.paused = false;
    }
}

/// Settling yield never lowers a balance or the total supply, and credits
/// no more than the yield of the elapsed time.
pub proof fn law_settle_only_credits(
    balances: Map<Seq<u8>, u64>,
    supply: u64,
    last: Map<Seq<u8>, u64>,
    rate_bps: u64,
    a: Seq<u8>,
    now: u64,
)
    ensures
        ({
            let l = settle(balances, supply, last, rate_bps, a, now);
            &&& map_get(l.0, a, 0) >= map_get(balances, a, 0)
            &&& l.1 >= supply
            &&& map_get(l.0, a, 0) <= map_get(balances, a, 0) + yield_on(
                map_get(balances, a, 0),
                rate_bps,
                (now - map_get(last, a, now)) as u64,
            )
            &&& forall|b: Seq<u8>| b != a ==> map_get(l.0, b, 0) == map_get(balances, b, 0)
        }),
{
}

} // verus!
