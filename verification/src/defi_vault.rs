//! A yield vault: deposits mint shares against the vault's assets, yield
//! raises the assets behind each share, withdrawals burn shares for assets.
use vstd::prelude::*;
use crate::keymap::KeyMap;
use crate::math::{mul_div, lemma_mul_u64_fits};

verus! {

/// Where the vault's yield comes from.
#[derive(Clone, Debug, PartialEq)]
pub enum VaultStrategy {
    LendingPool { pool_address: String },
    ValidatorRewards,
    Manual { apy_bps: u64 },
}

impl VaultStrategy {
    /// A copy of the strategy.
    pub fn duplicate(&self) -> (r: Self)
        ensures
            r == *self,
    {
        match self {
            VaultStrategy::LendingPool { pool_address } => VaultStrategy::LendingPool {
                pool_address: pool_address.clone(),
            },
            VaultStrategy::ValidatorRewards => VaultStrategy::ValidatorRewards,
            VaultStrategy::Manual { apy_bps } => VaultStrategy::Manual { apy_bps: *apy_bps },
        }
    }
}

/// The state of a vault.
#[derive(Clone, Debug)]
pub struct VaultState {
    pub name: String,
    pub symbol: String,
    pub owner: [u8; 32],
    pub total_assets: u64,
    pub total_shares: u64,
    pub share_balances: KeyMap<[u8; 32], u64>,
    pub strategy: VaultStrategy,
    pub cumulative_yield: u64,
    pub last_harvest: u64,
    pub deposit_limit: u64,
    pub min_deposit: u64,
    pub paused: bool,
}

/// A summary of a vault.
#[derive(Clone, Debug)]
pub struct VaultInfo {
    pub name: String,
    pub symbol: String,
    pub total_assets: u64,
    pub total_shares: u64,
    pub strategy: VaultStrategy,
    pub cumulative_yield: u64,
    pub last_harvest: u64,
    pub deposit_limit: u64,
    pub min_deposit: u64,
    pub paused: bool,
}

/// The shares that `assets` buy: one for one while the vault is empty,
/// else in proportion to the shares and assets already there.
pub open spec fn shares_for(total_assets: u64, total_shares: u64, assets: u64) -> u64 {
    if total_shares == 0 || total_assets == 0 {
        assets
    } else {
        ((assets as int * total_shares as int) / (total_assets as int)) as u64
    }
}

/// The assets that `shares` stand for.
pub open spec fn assets_for(total_assets: u64, total_shares: u64, shares: u64) -> u64 {
    if total_shares == 0 {
        0
    } else {
        ((shares as int * total_assets as int) / (total_shares as int)) as u64
    }
}

impl VaultState {
    pub open spec fn wf(&self) -> bool {
        self.share_balances.wf()
    }

    /// The shares held by `user`.
    pub open spec fn shares_of(&self, user: [u8; 32]) -> u64 {
        self.share_balances.get_or(user@, 0)
    }

    /// An empty vault.
    pub fn new(
        name: String,
        symbol: String,
        owner: [u8; 32],
        strategy: VaultStrategy,
        deposit_limit: u64,
    ) -> (s: Self)
        ensures
            s.wf(),
            s.name == name,
            s.symbol == symbol,
            s.owner == owner,
            s.total_assets == 0,
            s.total_shares == 0,
            s.share_balances@ == Map::<Seq<u8>, u64>::empty(),
            s.strategy == strategy,
            s.cumulative_yield == 0,
            s.last_harvest == 0,
            s.deposit_limit == deposit_limit,
            s.min_deposit == 1,
            !s.paused,
    {
        VaultState {
            name,
            symbol,
            owner,
            total_assets: 0,
            total_shares: 0,
            share_balances: KeyMap::new(),
            strategy,
            cumulative_yield: 0,
            last_harvest: 0,
            deposit_limit,
            min_deposit: 1,
            paused: false,
        }
    }

    /// The shares that `assets` would buy now.
    pub fn convert_to_shares(&self, assets: u64) -> (r: u64)
        ensures
            r == shares_for(self.total_assets, self.total_shares, assets),
    {
        if self.total_shares == 0 || self.total_assets == 0 {
            return assets;
        }
        mul_div(assets, self.total_shares, self.total_assets)
    }

    /// The assets that `shares` stand for now.
    pub fn convert_to_assets(&self, shares: u64) -> (r: u64)
        ensures
            r == assets_for(self.total_assets, self.total_shares, shares),
    {
        if self.total_shares == 0 {
            return 0;
        }
        mul_div(shares, self.total_assets, self.total_shares)
    }

    pub fn preview_deposit(&self, amount: u64) -> (r: u64)
        ensures
            r == shares_for(self.total_assets, self.total_shares, amount),
    {
        self.convert_to_shares(amount)
    }

    pub fn preview_withdraw(&self, shares: u64) -> (r: u64)
        ensures
            r == assets_for(self.total_assets, self.total_shares, shares),
    {
        self.convert_to_assets(shares)
    }

    /// Deposits `amount` and mints the caller the shares it buys.
    pub fn deposit(&mut self, caller: [u8; 32], amount: u64) -> (shares: u64)
        requires
            old(self).wf(),
            !old(self).paused,
            amount > 0,
            amount >= old(self).min_deposit,
            old(self).total_assets + amount <= old(self).deposit_limit,
            shares_for(old(self).total_assets, old(self).total_shares, amount) > 0,
            old(self).total_shares + shares_for(old(self).total_assets, old(self).total_shares, amount)
                <= u64::MAX,
            old(self).shares_of(caller) + shares_for(old(self).total_assets, old(self).total_shares, amount)
                <= u64::MAX,
        ensures
            final(self).wf(),
            shares == shares_for(old(self).total_assets, old(self).total_shares, amount),
            final(self).total_assets == old(self).total_assets + amount,
            final(self).total_shares == old(self).total_shares + shares,
            final(self).share_balances@ == old(self).share_balances@.insert(
                caller@,
                (old(self).shares_of(caller) + shares) as u64,
            ),
            *final(self) == (VaultState {
                total_assets: final(self).total_assets,
                total_shares: final(self).total_shares,
                share_balances: final(self).share_balances,
                ..*old(self)
            }),
    {
        let shares_minted = self.convert_to_shares(amount);
        self.total_assets = self.total_assets + amount;
        self.total_shares = self.total_shares + shares_minted;
        let current = self.share_balances.get_or_zero(&caller);
        self.share_balances.insert(caller, current + shares_minted);
        shares_minted
    }

    /// Burns `shares` of the caller for the assets they stand for.
    pub fn withdraw(&mut self, caller: [u8; 32], shares: u64) -> (assets: u64)
        requires
            old(self).wf(),
            !old(self).paused,
            shares > 0,
            old(self).shares_of(caller) >= shares,
            old(self).total_shares >= shares,
            assets_for(old(self).total_assets, old(self).total_shares, shares) > 0,
            assets_for(old(self).total_assets, old(self).total_shares, shares) <= old(self).total_assets,
        ensures
            final(self).wf(),
            assets == assets_for(old(self).total_assets, old(self).total_shares, shares),
            final(self).total_assets == old(self).total_assets - assets,
            final(self).total_shares == old(self).total_shares - shares,
            final(self).share_balances@ == old(self).share_balances@.insert(
                caller@,
                (old(self).shares_of(caller) - shares) as u64,
            ),
            *final(self) == (VaultState {
                total_assets: final(self).total_assets,
                total_shares: final(self).total_shares,
                share_balances: final(self).share_balances,
                ..*old(self)
            }),
    {
        let user_shares = self.share_balances.get_or_zero(&caller);
        let assets_returned = self.convert_to_assets(shares);
        self.share_balances.insert(caller, user_shares - shares);
        self.total_shares = self.total_shares - shares;
        self.total_assets = self.total_assets - assets_returned;
        assets_returned
    }

    /// The owner books `yield_amount` of yield at `timestamp`.
    pub fn harvest(&mut self, caller: [u8; 32], yield_amount: u64, timestamp: u64)
        requires
            caller == old(self).owner,
            yield_amount > 0,
            old(self).total_assets + yield_amount <= u64::MAX,
            old(self).cumulative_yield + yield_amount <= u64::MAX,
        ensures
            *final(self) == (VaultState {
                total_assets: (old(self).total_assets + yield_amount) as u64,
                cumulative_yield: (old(self).cumulative_yield + yield_amount) as u64,
                last_harvest: timestamp,
                ..*old(self)
            }),
    {
        self.total_assets = self.total_assets + yield_amount;
        self.cumulative_yield = self.cumulative_yield + yield_amount;
        self.last_harvest = timestamp;
    }

    /// The owner adds yield to a vault with a manual strategy.
    pub fn add_yield(&mut self, caller: [u8; 32], amount: u64)
        requires
            caller == old(self).owner,
            old(self).strategy is Manual,
            amount > 0,
            old(self).total_assets + amount <= u64::MAX,
            old(self).cumulative_yield + amount <= u64::MAX,
        ensures
            *final(self) == (VaultState {
                total_assets: (old(self).total_assets + amount) as u64,
                cumulative_yield: (old(self).cumulative_yield + amount) as u64,
                ..*old(self)
            }),
    {
        self.total_assets = self.total_assets + amount;
        self.cumulative_yield = self.cumulative_yield + amount;
    }

    pub fn get_share_balance(&self, user: &[u8; 32]) -> (r: u64)
        requires
            self.wf(),
        ensures
            r == self.shares_of(*user),
    {
        self.share_balances.get_or_zero(user)
    }

    pub fn get_share_value(&self, shares: u64) -> (r: u64)
        ensures
            r == assets_for(self.total_assets, self.total_shares, shares),
    {
        self.convert_to_assets(shares)
    }

    /// A summary of the vault.
    pub fn get_vault_info(&self) -> (r: VaultInfo)
        ensures
            r == (VaultInfo {
                name: self.name,
                symbol: self.symbol,
                total_assets: self.total_assets,
                total_shares: self.total_shares,
                strategy: self.strategy,
                cumulative_yield: self.cumulative_yield,
                last_harvest: self.last_harvest,
                deposit_limit: self.deposit_limit,
                min_deposit: self.min_deposit,
                paused: self.paused,
            }),
    {
        VaultInfo {
            name: self.name.clone(),
            symbol: self.symbol.clone(),
            total_assets: self.total_assets,
            total_shares: self.total_shares,
            strategy: self.strategy.duplicate(),
            cumulative_yield: self.cumulative_yield,
            last_harvest: self.last_harvest,
            deposit_limit: self.deposit_limit,
            min_deposit: self.min_deposit,
            paused: self.paused,
        }
    }

    pub fn set_deposit_limit(&mut self, caller: [u8; 32], limit: u64)
        requires
            caller == old(self).owner,
        ensures
            *final(self) == (VaultState { deposit_limit: limit, ..*old(self) }),
    {
        self.deposit_limit = limit;
    }

    pub fn pause(&mut self, caller: [u8; 32])
        requires
            caller == old(self).owner,
        ensures
            *final(self) == (VaultState { paused: true, ..*old(self) }),
    {
        self.paused = true;
    }

    pub fn unpause(&mut self, caller: [u8; 32])
        requires
            caller == old(self).owner,
        ensures
            *final(self) == (VaultState { paused: false, ..*old(self) }),
    {
        self.paused = false;
    }
}

/// Depositing and then withdrawing the shares just minted returns at most
/// what was deposited: rounding never favours the depositor. This holds
/// unless the vault has assets but no shares, where the first depositor
/// takes the assets already there.
pub proof fn law_deposit_then_withdraw_no_profit(total_assets: u64, total_shares: u64, amount: u64)
    requires
        !(total_shares == 0 && total_assets > 0),
        total_shares > 0 && total_assets > 0 ==> (amount as int * total_shares as int)
            / (total_assets as int) <= u64::MAX,
        amount > 0,
        total_assets + amount <= u64::MAX,
        total_shares + shares_for(total_assets, total_shares, amount) <= u64::MAX,
    ensures
        assets_for(
            (total_assets + amount) as u64,
            (total_shares + shares_for(total_assets, total_shares, amount)) as u64,
            shares_for(total_assets, total_shares, amount),
        ) <= amount,
{
    let ta = total_assets as int;
    let ts = total_shares as int;
    let a = amount as int;
    let sh = shares_for(total_assets, total_shares, amount) as int;
    let ta2 = (total_assets + amount) as u64;
    let ts2 = (total_shares + shares_for(total_assets, total_shares, amount)) as u64;
    assert(ta2 as int == ta + a);
    assert(ts2 as int == ts + sh);
    if total_shares == 0 || total_assets == 0 {
        assert(sh == a);
        assert(ta == 0);
        assert(0 <= (sh * (ta + a)) / (ts + sh) <= a) by (nonlinear_arith)
            requires
                sh == a,
                a > 0,
                ta == 0,
                ts >= 0,
        ;
        let v = (sh * (ta + a)) / (ts + sh);
        assert(v as u64 as int == v);
    } else {
        lemma_mul_u64_fits(amount, total_shares);
        crate::math::lemma_div_nonneg(a * ts, ta);
        assert(sh == (a * ts) / ta);
        assert(sh * ta <= a * ts) by (nonlinear_arith)
            requires
                sh == (a * ts) / ta,
                ta > 0,
        ;
        if sh > 0 {
            assert(0 <= (sh * (ta + a)) / (ts + sh) <= a) by (nonlinear_arith)
                requires
                    sh * ta <= a * ts,
                    sh > 0,
                    a > 0,
                    ta > 0,
                    ts > 0,
            ;
            let v = (sh * (ta + a)) / (ts + sh);
            assert(v as u64 as int == v);
        } else {
            assert(sh == 0);
            assert(sh * (ta + a) == 0) by (nonlinear_arith)
                requires
                    sh == 0,
            ;
            assert((sh * (ta + a)) / (ts + sh) == 0) by (nonlinear_arith)
                requires
                    sh * (ta + a) == 0,
                    ts + sh > 0,
            ;
        }
    }
}

} // verus!
