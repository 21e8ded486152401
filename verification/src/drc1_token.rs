//! DRC-1 fungible token: balances, allowances, owner-only minting.
use vstd::prelude::*;
use crate::keymap::KeyMap;

verus! {

/// The state of a DRC-1 token.
#[derive(Clone, Debug)]
pub struct TokenState {
    pub name: String,
    pub symbol: String,
    pub decimals: u8,
    pub total_supply: u64,
    pub owner: [u8; 32],
    pub balances: KeyMap<[u8; 32], u64>,
    pub allowances: KeyMap<([u8; 32], [u8; 32]), u64>,
}

impl TokenState {
    /// Both maps keep their keys distinct.
    pub open spec fn wf(&self) -> bool {
        self.balances.wf() && self.allowances.wf()
    }

    /// The balance of the account whose address has view `a`.
    pub open spec fn balance(&self, a: Seq<u8>) -> u64 {
        self.balances.get_or(a, 0)
    }

    /// What `spender` may still move out of `owner`'s balance.
    pub open spec fn allowed(&self, owner: Seq<u8>, spender: Seq<u8>) -> u64 {
        self.allowances.get_or((owner, spender), 0)
    }

    /// The fields that no operation but creation sets.
    pub open spec fn same_metadata(&self, other: &Self) -> bool {
        &&& self.name == other.name
        &&& self.symbol == other.symbol
        &&& self.decimals == other.decimals
        &&& self.owner == other.owner
    }

    /// A token with no supply, owned by `owner`.
    pub fn new(name: String, symbol: String, decimals: u8, owner: [u8; 32]) -> (s: Self)
        ensures
            s.wf(),
            s.name == name,
            s.symbol == symbol,
            s.decimals == decimals,
            s.owner == owner,
            s.total_supply == 0,
            s.balances@ == Map::<Seq<u8>, u64>::empty(),
            s.allowances@ == Map::<(Seq<u8>, Seq<u8>), u64>::empty(),
            s.balances.total() == 0,
    {
        TokenState {
            name,
            symbol,
            decimals,
            total_supply: 0,
            owner,
            balances: KeyMap::new(),
            allowances: KeyMap::new(),
        }
    }

    pub fn name(&self) -> (r: &str)
        ensures
            r@ == self.name@,
    {
        self.name.as_str()
    }

    pub fn symbol(&self) -> (r: &str)
        ensures
            r@ == self.symbol@,
    {
        self.symbol.as_str()
    }

    pub fn decimals(&self) -> (r: u8)
        ensures
            r == self.decimals,
    {
        self.decimals
    }

    pub fn total_supply(&self) -> (r: u64)
        ensures
            r == self.total_supply,
    {
        self.total_supply
    }

    /// The balance of `account`, zero where it has none.
    pub fn balance_of(&self, account: &[u8; 32]) -> (r: u64)
        requires
            self.wf(),
        ensures
            r == self.balance(account@),
    {
        self.balances.get_or_zero(account)
    }

    /// The allowance `owner` gave `spender`, zero where there is none.
    pub fn allowance(&self, owner: &[u8; 32], spender: &[u8; 32]) -> (r: u64)
        requires
            self.wf(),
        ensures
            r == self.allowed(owner@, spender@),
    {
        self.allowances.get_or_zero(&(*owner, *spender))
    }

    /// Stores `amount` as the balance of `account`.
    fn set_balance(&mut self, account: [u8; 32], amount: u64)
        requires
            old(self).wf(),
        ensures
            final(self).wf(),
            final(self).balances@ == old(self).balances@.insert(account@, amount),
            final(self).balances.total() == old(self).balances.total() - old(self).balance(account@)
                + amount,
            final(self).allowances == old(self).allowances,
            final(self).total_supply == old(self).total_supply,
            final(self).same_metadata(old(self)),
    {
        let ghost before = self.balances;
        self.balances.insert(account, amount);
        proof {
            KeyMap::lemma_total_insert(before, self.balances, account, amount);
        }
    }

    /// Moves `amount` from the caller to `to`; the sum of balances is unchanged.
    pub fn transfer(&mut self, caller: [u8; 32], to: [u8; 32], amount: u64)
        requires
            old(self).wf(),
            amount > 0,
            old(self).balance(caller@) >= amount,
            caller@ != to@ ==> old(self).balance(to@) + amount <= u64::MAX,
        ensures
            final(self).wf(),
            caller@ == to@ ==> final(self).balances@ == old(self).balances@.insert(
                caller@,
                old(self).balance(caller@),
            ),
            caller@ != to@ ==> final(self).balances@ == old(self).balances@.insert(
                caller@,
                (old(self).balance(caller@) - amount) as u64,
            ).insert(to@, (old(self).balance(to@) + amount) as u64),
            final(self).balances.total() == old(self).balances.total(),
            final(self).allowances == old(self).allowances,
            final(self).total_supply == old(self).total_supply,
            final(self).same_metadata(old(self)),
    {
        let from_balance = self.balance_of(&caller);
        self.set_balance(caller, from_balance - amount);
        let to_balance = self.balance_of(&to);
        self.set_balance(to, to_balance + amount);
    }

    /// Sets the allowance of `spender` over the caller's balance.
    pub fn approve(&mut self, caller: [u8; 32], spender: [u8; 32], amount: u64)
        requires
            old(self).wf(),
        ensures
            final(self).wf(),
            final(self).allowances@ == old(self).allowances@.insert((caller@, spender@), amount),
            final(self).balances == old(self).balances,
            final(self).total_supply == old(self).total_supply,
            final(self).same_metadata(old(self)),
    {
        self.allowances.insert((caller, spender), amount);
    }

    /// Moves `amount` from `from` to `to` on the caller's allowance.
    pub fn transfer_from(&mut self, caller: [u8; 32], from: [u8; 32], to: [u8; 32], amount: u64)
        requires
            old(self).wf(),
            amount > 0,
            old(self).allowed(from@, caller@) >= amount,
            old(self).balance(from@) >= amount,
            from@ != to@ ==> old(self).balance(to@) + amount <= u64::MAX,
        ensures
            final(self).wf(),
            final(self).allowances@ == old(self).allowances@.insert(
                (from@, caller@),
                (old(self).allowed(from@, caller@) - amount) as u64,
            ),
            from@ == to@ ==> final(self).balances@ == old(self).balances@.insert(
                from@,
                old(self).balance(from@),
            ),
            from@ != to@ ==> final(self).balances@ == old(self).balances@.insert(
                from@,
                (old(self).balance(from@) - amount) as u64,
            ).insert(to@, (old(self).balance(to@) + amount) as u64),
            final(self).balances.total() == old(self).balances.total(),
            final(self).total_supply == old(self).total_supply,
            final(self).same_metadata(old(self)),
    {
        let allowed = self.allowance(&from, &caller);
        let from_balance = self.balance_of(&from);
        self.allowances.insert((from, caller), allowed - amount);
        self.set_balance(from, from_balance - amount);
        let to_balance = self.balance_of(&to);
        self.set_balance(to, to_balance + amount);
    }

    /// The owner creates `amount` new tokens for `to`.
    pub fn mint(&mut self, caller: [u8; 32], to: [u8; 32], amount: u64)
        requires
            old(self).wf(),
            caller@ == old(self).owner@,
            amount > 0,
            old(self).balance(to@) + amount <= u64::MAX,
            old(self).total_supply + amount <= u64::MAX,
        ensures
            final(self).wf(),
            final(self).balances@ == old(self).balances@.insert(
                to@,
                (old(self).balance(to@) + amount) as u64,
            ),
            final(self).total_supply == old(self).total_supply + amount,
            final(self).balances.total() == old(self).balances.total() + amount,
            final(self).allowances == old(self).allowances,
            final(self).same_metadata(old(self)),
    {
        let balance = self.balance_of(&to);
        self.set_balance(to, balance + amount);
        self.total_supply = self.total_supply + amount;
    }

    /// The caller destroys `amount` of its own tokens.
    pub fn burn(&mut self, caller: [u8; 32], amount: u64)
        requires
            old(self).wf(),
            amount > 0,
            old(self).balance(caller@) >= amount,
            old(self).total_supply >= amount,
        ensures
            final(self).wf(),
            final(self).balances@ == old(self).balances@.insert(
                caller@,
                (old(self).balance(caller@) - amount) as u64,
            ),
            final(self).total_supply == old(self).total_supply - amount,
            final(self).balances.total() == old(self).balances.total() - amount,
            final(self).allowances == old(self).allowances,
            final(self).same_metadata(old(self)),
    {
        let balance = self.balance_of(&caller);
        self.set_balance(caller, balance - amount);
        self.total_supply = self.total_supply - amount;
    }

    /// Raises the allowance of `spender` over the caller's balance by `added`.
    pub fn increase_allowance(&mut self, caller: [u8; 32], spender: [u8; 32], added: u64)
        requires
            old(self).wf(),
            old(self).allowed(caller@, spender@) + added <= u64::MAX,
        ensures
            final(self).wf(),
            final(self).allowances@ == old(self).allowances@.insert(
                (caller@, spender@),
                (old(self).allowed(caller@, spender@) + added) as u64,
            ),
            final(self).balances == old(self).balances,
            final(self).total_supply == old(self).total_supply,
            final(self).same_metadata(old(self)),
    {
        let current = self.allowance(&caller, &spender);
        self.allowances.insert((caller, spender), current + added);
    }

    /// Lowers the allowance of `spender` over the caller's balance by `subtracted`.
    pub fn decrease_allowance(&mut self, caller: [u8; 32], spender: [u8; 32], subtracted: u64)
        requires
            old(self).wf(),
            old(self).allowed(caller@, spender@) >= subtracted,
        ensures
            final(self).wf(),
            final(self).allowances@ == old(self).allowances@.insert(
                (caller@, spender@),
                (old(self).allowed(caller@, spender@) - subtracted) as u64,
            ),
            final(self).balances == old(self).balances,
            final(self).total_supply == old(self).total_supply,
            final(self).same_metadata(old(self)),
    {
        let current = self.allowance(&caller, &spender);
        self.allowances.insert((caller, spender), current - subtracted);
    }
}

/// Whether the sum of all balances is the total supply.
pub open spec fn supply_is_sum_of_balances(s: TokenState) -> bool {
    s.balances.total() == s.total_supply
}

/// Where the total supply is the sum of all balances, which every operation
/// keeps (see the `ensures` on `balances.total()` and `total_supply`), no
/// account holds more than the total supply.
pub proof fn law_balance_within_supply(s: TokenState, account: Seq<u8>)
    requires
        s.wf(),
        supply_is_sum_of_balances(s),
    ensures
        s.balance(account) <= s.total_supply,
{
    s.balances.lemma_total_ge(account);
}

} // verus!
