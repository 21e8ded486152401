//! A lending pool: suppliers earn interest through supply shares, borrowers
//! pay a rate that follows a kinked utilization curve, and a reserve factor
//! of the interest goes to the protocol.
use vstd::prelude::*;
use crate::keymap::KeyMap;
use crate::math::{lemma_div_nonneg, lemma_mul_u64_fits, mul_div};

verus! {

pub const BPS: u128 = 10_000;
pub const INDEX_PRECISION: u128 = 1_000_000_000_000;
pub const SECONDS_PER_YEAR: u128 = 31_557_600;

/// A borrower's debt: its principal as of `interest_index`.
#[derive(Clone, Copy, Debug)]
pub struct BorrowPosition {
    pub principal: u64,
    pub interest_index: u128,
    pub timestamp: u64,
}

/// The state of a lending pool.
#[derive(Clone, Debug)]
pub struct LendingPoolState {
    pub owner: [u8; 32],
    pub total_supplied: u64,
    pub supply_shares: KeyMap<[u8; 32], u64>,
    pub total_supply_shares: u64,
    pub total_borrowed: u64,
    pub borrow_positions: KeyMap<[u8; 32], BorrowPosition>,
    pub base_rate_bps: u64,
    pub slope1_bps: u64,
    pub slope2_bps: u64,
    pub optimal_utilization_bps: u64,
    pub reserve_factor_bps: u64,
    pub protocol_reserves: u64,
    pub borrow_index: u128,
    pub last_update_timestamp: u64,
    pub paused: bool,
    pub initialized: bool,
}

/// The share of supplied funds that is borrowed, in basis points.
pub open spec fn utilization(supplied: u64, borrowed: u64) -> u64 {
    if supplied == 0 {
        0
    } else {
        ((borrowed as int * 10000) / (supplied as int)) as u64
    }
}

/// The borrow rate at utilization `util`: the base rate, plus `slope1` scaled
/// up to the optimal utilization, plus `slope2` scaled over the rest.
pub open spec fn rate_at(util: int, optimal: int, base: int, s1: int, s2: int) -> int {
    if util <= optimal {
        if optimal == 0 {
            base
        } else {
            base + util * s1 / optimal
        }
    } else {
        let remaining = 10000 - optimal;
        if remaining == 0 {
            base + s1
        } else {
            base + s1 + (util - optimal) * s2 / remaining
        }
    }
}

/// What a position with `principal` at `position_index` owes at `index`.
pub open spec fn owed_at(position: BorrowPosition, index: u128) -> u64 {
    if position.interest_index == 0 {
        position.principal
    } else {
        ((position.principal as int * index as int) / (position.interest_index as int)) as u64
    }
}

impl LendingPoolState {
    pub open spec fn wf(&self) -> bool {
        self.supply_shares.wf() && self.borrow_positions.wf()
    }

    pub open spec fn util(&self) -> u64 {
        utilization(self.total_supplied, self.total_borrowed)
    }

    /// Whether the rate curve is defined at the current utilization: above
    /// the kink, the optimal utilization may not exceed 100%.
    pub open spec fn rate_defined(&self) -> bool {
        self.util() > self.optimal_utilization_bps ==> self.optimal_utilization_bps <= 10000
    }

    /// The borrow rate before it is cut to 64 bits.
    pub open spec fn borrow_rate(&self) -> int {
        rate_at(
            self.util() as int,
            self.optimal_utilization_bps as int,
            self.base_rate_bps as int,
            self.slope1_bps as int,
            self.slope2_bps as int,
        )
    }

    pub open spec fn borrow_apy(&self) -> u64 {
        self.borrow_rate() as u64
    }

    pub open spec fn supply_apy(&self) -> u64 {
        ((((self.borrow_apy() as int * self.util() as int) / 10000) * (10000
            - self.reserve_factor_bps)) / 10000) as u64
    }

    pub open spec fn shares_of(&self, user: [u8; 32]) -> u64 {
        self.supply_shares.get_or(user@, 0)
    }

    /// The funds behind `user`'s supply shares.
    pub open spec fn supply_balance(&self, user: [u8; 32]) -> u64 {
        let shares = self.shares_of(user);
        if shares == 0 || self.total_supply_shares == 0 {
            0
        } else {
            ((shares as int * self.total_supplied as int) / (self.total_supply_shares as int)) as u64
        }
    }

    /// Whether accrual takes the interest branch at `now`.
    pub open spec fn accrues_at(&self, now: u64) -> bool {
        self.initialized && now > self.last_update_timestamp && self.total_borrowed != 0
    }

    pub open spec fn elapsed(&self, now: u64) -> int {
        now - self.last_update_timestamp
    }

    pub open spec fn interest_factor(&self, now: u64) -> int {
        (self.borrow_apy() as int * self.elapsed(now) * 1_000_000_000_000) / (315_576_000_000int)
    }

    pub open spec fn interest_earned(&self, now: u64) -> int {
        ((self.total_borrowed as int * self.interest_factor(now)) / 1_000_000_000_000) as u64 as int
    }

    pub open spec fn index_delta(&self, now: u64) -> int {
        (self.borrow_index as int * self.borrow_apy() as int * self.elapsed(now)) / (315_576_000_000int)
    }

    pub open spec fn reserve_share(&self, now: u64) -> int {
        ((self.interest_earned(now) * self.reserve_factor_bps as int) / 10000) as u64 as int
    }

    /// Whether accruing interest at `now` stays within the integer types.
    pub open spec fn accrue_ok(&self, now: u64) -> bool {
        self.accrues_at(now) ==> {
            &&& self.rate_defined()
            &&& self.borrow_apy() as int * self.elapsed(now) * 1_000_000_000_000 <= u128::MAX
            &&& self.total_borrowed as int * self.interest_factor(now) <= u128::MAX
            &&& self.borrow_index as int * self.borrow_apy() as int * self.elapsed(now) <= u128::MAX
            &&& self.borrow_index as int + self.index_delta(now) <= u128::MAX
            &&& self.reserve_share(now) <= self.interest_earned(now)
            &&& self.protocol_reserves + self.reserve_share(now) <= u64::MAX
            &&& self.total_supplied + self.interest_earned(now) - self.reserve_share(now) <= u64::MAX
            &&& self.total_borrowed + self.interest_earned(now) <= u64::MAX
        }
    }

    /// The pool once interest is accrued up to `now`.
    pub open spec fn accrued(&self, now: u64) -> LendingPoolState {
        if !self.initialized {
            LendingPoolState { initialized: true, last_update_timestamp: now, ..*self }
        } else if now <= self.last_update_timestamp {
            *self
        } else if self.total_borrowed == 0 {
            LendingPoolState { last_update_timestamp: now, ..*self }
        } else {
            LendingPoolState {
                borrow_index: (self.borrow_index + self.index_delta(now)) as u128,
                protocol_reserves: (self.protocol_reserves + self.reserve_share(now)) as u64,
                total_supplied: (self.total_supplied + self.interest_earned(now) - self.reserve_share(
                    now,
                )) as u64,
                total_borrowed: (self.total_borrowed + self.interest_earned(now)) as u64,
                last_update_timestamp: now,
                ..*self
            }
        }
    }

    /// The shares that supplying `amount` mints.
    pub open spec fn shares_for(&self, amount: u64) -> u64 {
        if self.total_supply_shares == 0 || self.total_supplied == 0 {
            amount
        } else {
            ((amount as int * self.total_supply_shares as int) / (self.total_supplied as int)) as u64
        }
    }

    /// What `user` owes at the current index.
    pub open spec fn debt_of(&self, user: [u8; 32]) -> u64 {
        if self.borrow_positions@.contains_key(user@) {
            owed_at(self.borrow_positions@[user@], self.borrow_index)
        } else {
            0
        }
    }

    /// Whether the debt of `user` can be computed without overflow.
    pub open spec fn debt_computable(&self, user: [u8; 32]) -> bool {
        self.borrow_positions@.contains_key(user@)
            ==> self.borrow_positions@[user@].principal as int * self.borrow_index as int <= u128::MAX
    }

    /// A pool with the given rate curve, nothing supplied and index 1e12.
    pub fn new(
        owner: [u8; 32],
        base_rate_bps: u64,
        slope1_bps: u64,
        slope2_bps: u64,
        optimal_utilization_bps: u64,
        reserve_factor_bps: u64,
    ) -> (s: Self)
        ensures
            s.wf(),
            s.owner == owner,
            s.total_supplied == 0,
            s.supply_shares@ == Map::<Seq<u8>, u64>::empty(),
            s.total_supply_shares == 0,
            s.total_borrowed == 0,
            s.borrow_positions@ == Map::<Seq<u8>, BorrowPosition>::empty(),
            s.base_rate_bps == base_rate_bps,
            s.slope1_bps == slope1_bps,
            s.slope2_bps == slope2_bps,
            s.optimal_utilization_bps == optimal_utilization_bps,
            s.reserve_factor_bps == reserve_factor_bps,
            s.protocol_reserves == 0,
            s.borrow_index == INDEX_PRECISION,
            s.last_update_timestamp == 0,
            !s.paused,
            !s.initialized,
    {
        LendingPoolState {
            owner,
            total_supplied: 0,
            supply_shares: KeyMap::new(),
            total_supply_shares: 0,
            total_borrowed: 0,
            borrow_positions: KeyMap::new(),
            base_rate_bps,
            slope1_bps,
            slope2_bps,
            optimal_utilization_bps,
            reserve_factor_bps,
            protocol_reserves: 0,
            borrow_index: INDEX_PRECISION,
            last_update_timestamp: 0,
            paused: false,
            initialized: false,
        }
    }

    /// The utilization in basis points: borrowed over supplied.
    pub fn get_utilization_bps(&self) -> (r: u64)
        ensures
            r == self.util(),
    {
        if self.total_supplied == 0 {
            return 0;
        }
        mul_div(self.total_borrowed, 10000, self.total_supplied)
    }

    /// The borrow rate in basis points per year.
    pub fn get_borrow_apy_bps(&self) -> (r: u64)
        requires
            self.rate_defined(),
        ensures
            r == self.borrow_apy(),
    {
        let util64 = self.get_utilization_bps();
        let util = util64 as u128;
        let optimal = self.optimal_utilization_bps as u128;
        let base = self.base_rate_bps as u128;
        let s1 = self.slope1_bps as u128;
        let s2 = self.slope2_bps as u128;
        if util <= optimal {
            if optimal == 0 {
                return base as u64;
            }
            proof {
                lemma_mul_u64_fits(util64, self.slope1_bps);
                lemma_div_nonneg(util as int * s1 as int, optimal as int);
                assert(base as int + util as int * s1 as int <= u128::MAX) by (nonlinear_arith)
                    requires
                        base <= u64::MAX,
                        util as int * s1 as int <= u64::MAX as int * u64::MAX as int,
                ;
            }
            let q = util * s1 / optimal;
            (base + q) as u64
        } else {
            let excess = util - optimal;
            let remaining = BPS - optimal;
            if remaining == 0 {
                return (base + s1) as u64;
            }
            proof {
                lemma_mul_u64_fits(excess as u64, self.slope2_bps);
                lemma_div_nonneg(excess as int * s2 as int, remaining as int);
                assert(base as int + s1 as int + excess as int * s2 as int <= u128::MAX) by (nonlinear_arith)
                    requires
                        base <= u64::MAX,
                        s1 <= u64::MAX,
                        excess as int * s2 as int <= u64::MAX as int * u64::MAX as int,
                ;
            }
            let q = excess * s2 / remaining;
            (base + s1 + q) as u64
        }
    }

    /// The supply rate: the borrow rate scaled by utilization, less the reserve factor.
    pub fn get_supply_apy_bps(&self) -> (r: u64)
        requires
            self.rate_defined(),
            self.reserve_factor_bps <= 10000,
        ensures
            r == self.supply_apy(),
    {
        let borrow_apy = self.get_borrow_apy_bps();
        let util = self.get_utilization_bps();
        let reserve = self.reserve_factor_bps as u128;
        proof {
            lemma_mul_u64_fits(borrow_apy, util);
            let p = borrow_apy as int * util as int;
            lemma_div_nonneg(p, 10000);
            assert((p / 10000) * (10000 - reserve as int) <= u128::MAX) by (nonlinear_arith)
                requires
                    0 <= p <= u64::MAX as int * u64::MAX as int,
                    0 <= 10000 - reserve <= 10000,
                    p / 10000 >= 0,
                    p / 10000 <= p,
            ;
            lemma_div_nonneg((p / 10000) * (10000 - reserve as int), 10000);
        }
        let p = borrow_apy as u128 * util as u128 / BPS;
        (p * (BPS - reserve) / BPS) as u64
    }

    /// Accrues interest from the last update to `current_timestamp`: the
    /// borrow index grows by the borrow rate over the elapsed time, borrowers
    /// owe the interest earned, and suppliers receive it less the reserve share.
    pub fn accrue_interest(&mut self, current_timestamp: u64)
        requires
            old(self).accrue_ok(current_timestamp),
        ensures
            *final(self) == old(self).accrued(current_timestamp),
    {
        if !self.initialized {
            self.initialized = true;
            self.last_update_timestamp = current_timestamp;
            return;
        }
        if current_timestamp <= self.last_update_timestamp {
            return;
        }
        if self.total_borrowed == 0 {
            self.last_update_timestamp = current_timestamp;
            return;
        }
        let elapsed = (current_timestamp - self.last_update_timestamp) as u128;
        let rate = self.get_borrow_apy_bps() as u128;
        proof {
            let re = rate as int * elapsed as int;
            assert(re <= u128::MAX) by (nonlinear_arith)
                requires
                    re * 1_000_000_000_000 <= u128::MAX,
                    re >= 0,
            ;
            lemma_div_nonneg(re * 1_000_000_000_000, 315_576_000_000int);
            lemma_div_nonneg(self.total_borrowed as int * self.interest_factor(current_timestamp), 1_000_000_000_000);
            let bir = self.borrow_index as int * rate as int;
            assert(bir <= u128::MAX) by (nonlinear_arith)
                requires
                    bir * elapsed <= u128::MAX,
                    bir >= 0,
                    elapsed >= 1,
            ;
            lemma_div_nonneg(bir * elapsed as int, 315_576_000_000int);
        }
        let interest_factor = rate * elapsed * INDEX_PRECISION / (BPS * SECONDS_PER_YEAR);
        let interest_earned = (self.total_borrowed as u128 * interest_factor / INDEX_PRECISION) as u64;
        let idx_delta = self.borrow_index * rate * elapsed / (BPS * SECONDS_PER_YEAR);
        self.borrow_index = self.borrow_index + idx_delta;
        let reserve_share = mul_div(interest_earned, self.reserve_factor_bps, 10000);
        self.protocol_reserves = self.protocol_reserves + reserve_share;
        self.total_supplied = self.total_supplied + (interest_earned - reserve_share);
        self.total_borrowed = self.total_borrowed + interest_earned;
        self.last_update_timestamp = current_timestamp;
    }

    /// Supplies `amount` at `timestamp`, minting the caller supply shares.
    pub fn supply(&mut self, caller: [u8; 32], amount: u64, timestamp: u64) -> (shares: u64)
        requires
            old(self).wf(),
            !old(self).paused,
            amount > 0,
            old(self).accrue_ok(timestamp),
            old(self).accrued(timestamp).shares_for(amount) > 0,
            old(self).accrued(timestamp).total_supplied + amount <= u64::MAX,
            old(self).accrued(timestamp).total_supply_shares + old(self).accrued(timestamp).shares_for(
                amount,
            ) <= u64::MAX,
            old(self).shares_of(caller) + old(self).accrued(timestamp).shares_for(amount) <= u64::MAX,
        ensures
            final(self).wf(),
            ({
                let a = old(self).accrued(timestamp);
                &&& shares == a.shares_for(amount)
                &&& *final(self) == (LendingPoolState {
                    total_supplied: (a.total_supplied + amount) as u64,
                    total_supply_shares: (a.total_supply_shares + shares) as u64,
                    supply_shares: final(self).supply_shares,
                    ..a
                })
                &&& final(self).supply_shares@ == a.supply_shares@.insert(
                    caller@,
                    (a.shares_of(caller) + shares) as u64,
                )
            }),
    {
        self.accrue_interest(timestamp);
        let shares = if self.total_supply_shares == 0 || self.total_supplied == 0 {
            amount
        } else {
            mul_div(amount, self.total_supply_shares, self.total_supplied)
        };
        self.total_supplied = self.total_supplied + amount;
        self.total_supply_shares = self.total_supply_shares + shares;
        let existing = self.supply_shares.get_or_zero(&caller);
        self.supply_shares.insert(caller, existing + shares);
        shares
    }

    /// Burns `shares` of the caller's supply shares for the funds behind them.
    pub fn withdraw_supply(&mut self, caller: [u8; 32], shares: u64, timestamp: u64) -> (amount: u64)
        requires
            old(self).wf(),
            !old(self).paused,
            shares > 0,
            old(self).accrue_ok(timestamp),
            ({
                let a = old(self).accrued(timestamp);
                &&& a.shares_of(caller) >= shares
                &&& a.total_supply_shares >= shares
                &&& a.total_supplied >= a.total_borrowed
                &&& ((shares as int * a.total_supplied as int) / (a.total_supply_shares as int)) as u64
                    <= a.total_supplied - a.total_borrowed
            }),
        ensures
            final(self).wf(),
            ({
                let a = old(self).accrued(timestamp);
                &&& amount == ((shares as int * a.total_supplied as int)
                    / (a.total_supply_shares as int)) as u64
                &&& *final(self) == (LendingPoolState {
                    total_supplied: (a.total_supplied - amount) as u64,
                    total_supply_shares: (a.total_supply_shares - shares) as u64,
                    supply_shares: final(self).supply_shares,
                    ..a
                })
                &&& final(self).supply_shares@ == a.supply_shares@.insert(
                    caller@,
                    (a.shares_of(caller) - shares) as u64,
                )
            }),
    {
        self.accrue_interest(timestamp);
        let user_shares = self.supply_shares.get_or_zero(&caller);
        let amount = mul_div(shares, self.total_supplied, self.total_supply_shares);
        self.supply_shares.insert(caller, user_shares - shares);
        self.total_supply_shares = self.total_supply_shares - shares;
        self.total_supplied = self.total_supplied - amount;
        amount
    }

    /// The funds behind `user`'s supply shares.
    pub fn get_supply_balance(&self, user: &[u8; 32]) -> (r: u64)
        requires
            self.wf(),
        ensures
            r == self.supply_balance(*user),
    {
        let shares = self.supply_shares.get_or_zero(user);
        if shares == 0 || self.total_supply_shares == 0 {
            return 0;
        }
        mul_div(shares, self.total_supplied, self.total_supply_shares)
    }

    /// What a position owes at the current borrow index.
    fn calculate_borrow_balance(&self, position: &BorrowPosition) -> (r: u64)
        requires
            position.principal as int * self.borrow_index as int <= u128::MAX,
        ensures
            r == owed_at(*position, self.borrow_index),
    {
        if position.interest_index == 0 {
            return position.principal;
        }
        (position.principal as u128 * self.borrow_index / position.interest_index) as u64
    }

    /// Borrows `amount` against the caller's supply, which must cover 150% of it.
    pub fn borrow(&mut self, caller: [u8; 32], amount: u64, timestamp: u64)
        requires
            old(self).wf(),
            !old(self).paused,
            amount > 0,
            old(self).accrue_ok(timestamp),
            ({
                let a = old(self).accrued(timestamp);
                &&& a.supply_balance(caller) >= ((amount as int * 15000) / 10000) as u64
                &&& a.total_supplied >= a.total_borrowed
                &&& amount <= a.total_supplied - a.total_borrowed
                &&& a.debt_computable(caller)
                &&& a.debt_of(caller) + amount <= u64::MAX
                &&& a.total_borrowed + amount <= u64::MAX
            }),
        ensures
            final(self).wf(),
            ({
                let a = old(self).accrued(timestamp);
                &&& *final(self) == (LendingPoolState {
                    total_borrowed: (a.total_borrowed + amount) as u64,
                    borrow_positions: final(self).borrow_positions,
                    ..a
                })
                &&& final(self).borrow_positions@ == a.borrow_positions@.insert(
                    caller@,
                    BorrowPosition {
                        principal: (a.debt_of(caller) + amount) as u64,
                        interest_index: a.borrow_index,
                        timestamp,
                    },
                )
            }),
    {
        self.accrue_interest(timestamp);
        let principal = match self.borrow_positions.get(&caller) {
            Some(existing) => self.calculate_borrow_balance(existing) + amount,
            None => amount,
        };
        let position = BorrowPosition { principal, interest_index: self.borrow_index, timestamp };
        self.borrow_positions.insert(caller, position);
        self.total_borrowed = self.total_borrowed + amount;
    }

    /// Repays up to what the caller owes; returns what was paid beyond the debt.
    pub fn repay(&mut self, caller: [u8; 32], amount: u64, timestamp: u64) -> (excess: u64)
        requires
            old(self).wf(),
            amount > 0,
            old(self).accrue_ok(timestamp),
            old(self).accrued(timestamp).borrow_positions@.contains_key(caller@),
            old(self).accrued(timestamp).debt_computable(caller),
        ensures
            final(self).wf(),
            ({
                let a = old(self).accrued(timestamp);
                let owed = a.debt_of(caller);
                let paid = if amount >= owed { owed } else { amount };
                &&& excess == (if amount >= owed { amount - owed } else { 0 })
                &&& (amount >= owed ==> final(self).borrow_positions@ == a.borrow_positions@.remove(caller@))
                &&& (amount < owed ==> final(self).borrow_positions@ == a.borrow_positions@.insert(
                    caller@,
                    BorrowPosition { principal: (owed - amount) as u64, interest_index: a.borrow_index, timestamp },
                ))
                &&& *final(self) == (LendingPoolState {
                    total_borrowed: if paid <= a.total_borrowed { (a.total_borrowed - paid) as u64 } else { 0 },
                    borrow_positions: final(self).borrow_positions,
                    ..a
                })
            }),
    {
        self.accrue_interest(timestamp);
        let position = *self.borrow_positions.get(&caller).unwrap();
        let owed = self.calculate_borrow_balance(&position);
        let actual_repay = if amount >= owed { owed } else { amount };
        let excess = if amount >= owed { amount - owed } else { 0 };
        if actual_repay >= owed {
            self.borrow_positions.remove(&caller);
        } else {
            self.borrow_positions.insert(
                caller,
                BorrowPosition { principal: owed - actual_repay, interest_index: self.borrow_index, timestamp },
            );
        }
        if actual_repay <= self.total_borrowed {
            self.total_borrowed = self.total_borrowed - actual_repay;
        } else {
            self.total_borrowed = 0;
        }
        excess
    }

    /// What `user` owes at the current borrow index.
    pub fn get_borrow_balance_for(&self, user: &[u8; 32]) -> (r: u64)
        requires
            self.wf(),
            self.debt_computable(*user),
        ensures
            r == self.debt_of(*user),
    {
        match self.borrow_positions.get(user) {
            Some(pos) => self.calculate_borrow_balance(pos),
            None => 0,
        }
    }

    /// The owner takes the protocol reserves.
    pub fn collect_reserves(&mut self, caller: [u8; 32]) -> (amount: u64)
        requires
            caller == old(self).owner,
        ensures
            amount == old(self).protocol_reserves,
            *final(self) == (LendingPoolState { protocol_reserves: 0, ..*old(self) }),
    {
        let amount = self.protocol_reserves;
        self.protocol_reserves = 0;
        amount
    }

    pub fn pause(&mut self, caller: [u8; 32])
        requires
            caller == old(self).owner,
        ensures
            *final(self) == (LendingPoolState { paused: true, ..*old(self) }),
    {
        self.paused = true;
    }

    pub fn unpause(&mut self, caller: [u8; 32])
        requires
            caller == old(self).owner,
        ensures
            *final(self) == (LendingPoolState { paused: false, ..*old(self) }),
    {
        self.paused = false;
    }
}

/// The borrow rate never falls as utilization rises (with the optimal
/// utilization at most 100% and all parameters non-negative).
pub proof fn law_rate_monotone_in_utilization(u1: int, u2: int, optimal: int, base: int, s1: int, s2: int)
    requires
        0 <= u1 <= u2,
        0 <= optimal <= 10000,
        base >= 0,
        s1 >= 0,
        s2 >= 0,
    ensures
        rate_at(u1, optimal, base, s1, s2) <= rate_at(u2, optimal, base, s1, s2),
{
    if u2 <= optimal {
        if optimal > 0 {
            assert(u1 * s1 / optimal <= u2 * s1 / optimal) by (nonlinear_arith)
                requires
                    0 <= u1 <= u2,
                    optimal > 0,
                    s1 >= 0,
            ;
        }
    } else if u1 <= optimal {
        if optimal > 0 {
            assert(u1 * s1 / optimal <= s1) by (nonlinear_arith)
                requires
                    0 <= u1 <= optimal,
                    optimal > 0,
                    s1 >= 0,
            ;
        }
        if 10000 - optimal > 0 {
            assert((u2 - optimal) * s2 / (10000 - optimal) >= 0) by (nonlinear_arith)
                requires
                    u2 > optimal,
                    10000 - optimal > 0,
                    s2 >= 0,
            ;
        }
    } else {
        if 10000 - optimal > 0 {
            assert((u1 - optimal) * s2 / (10000 - optimal) <= (u2 - optimal) * s2 / (10000 - optimal))
                by (nonlinear_arith)
                requires
                    optimal < u1 <= u2,
                    10000 - optimal > 0,
                    s2 >= 0,
            ;
        }
    }
}

/// While no more is borrowed than supplied and the reserve factor is at most
/// 100%, suppliers earn no more than borrowers pay.
pub proof fn law_supply_rate_within_borrow_rate(s: LendingPoolState)
    requires
        s.total_borrowed <= s.total_supplied,
        s.reserve_factor_bps <= 10000,
    ensures
        s.supply_apy() <= s.borrow_apy(),
{
    let apy = s.borrow_apy() as int;
    let u = s.util() as int;
    if s.total_supplied > 0 {
        crate::math::lemma_mul_div_le(10000, s.total_borrowed as int, s.total_supplied as int);
        assert(s.total_borrowed as int * 10000 == 10000 * s.total_borrowed as int) by (nonlinear_arith);
    }
    assert(0 <= u <= 10000);
    let r = 10000 - s.reserve_factor_bps as int;
    assert(0 <= (((apy * u) / 10000) * r) / 10000 <= apy) by (nonlinear_arith)
        requires
            0 <= apy,
            0 <= u <= 10000,
            0 <= r <= 10000,
    ;
}

/// Accruing interest adds it to what borrowers owe, sets aside for the
/// protocol the reserve factor's share of it, rounded down, and credits
/// suppliers with the rest.
pub proof fn law_accrual_splits_interest(s: LendingPoolState, now: u64)
    requires
        s.accrues_at(now),
        s.accrue_ok(now),
        s.reserve_factor_bps <= 10000,
    ensures
        ({
            let t = s.accrued(now);
            let interest = t.total_borrowed - s.total_borrowed;
            let reserve = t.protocol_reserves - s.protocol_reserves;
            &&& interest >= 0
            &&& reserve * 10000 <= interest * s.reserve_factor_bps
            &&& interest * s.reserve_factor_bps < (reserve + 1) * 10000
            &&& t.total_supplied - s.total_supplied == interest - reserve
        }),
{
    let e = s.interest_earned(now);
    let n = e * s.reserve_factor_bps as int;
    let q = n / 10000;
    assert(0 <= e <= u64::MAX);
    assert(q * 10000 <= n && n < (q + 1) * 10000 && 0 <= q <= e) by (nonlinear_arith)
        requires
            q == n / 10000,
            n == e * s.reserve_factor_bps as int,
            0 <= s.reserve_factor_bps <= 10000,
            e >= 0,
    ;
    assert(s.reserve_share(now) == q);
}

} // verus!
