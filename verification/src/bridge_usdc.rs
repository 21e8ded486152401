//! Bridged USDC (USDC.e) on Dina: a token minted and burned by the bridge,
//! with pausing and a blacklist.
use vstd::prelude::*;
use crate::keymap::KeyMap;

verus! {

/// The state of the bridged token.
#[derive(Clone, Debug)]
pub struct BridgedUsdcState {
    pub name: String,
    pub symbol: String,
    pub decimals: u8,
    pub total_supply: u64,
    pub owner: [u8; 32],
    pub bridge_address: Option<[u8; 32]>,
    pub bridge_locked: bool,
    pub balances: KeyMap<[u8; 32], u64>,
    pub allowances: KeyMap<([u8; 32], [u8; 32]), u64>,
    pub paused: bool,
    pub blacklisted: KeyMap<[u8; 32], bool>,
}

impl BridgedUsdcState {
    pub open spec fn wf(&self) -> bool {
        self.balances.wf() && self.allowances.wf() && self.blacklisted.wf()
    }

    pub open spec fn balance(&self, a: [u8; 32]) -> u64 {
        self.balances.get_or(a@, 0)
    }

    pub open spec fn allowed(&self, owner: [u8; 32], spender: [u8; 32]) -> u64 {
        self.allowances.get_or((owner@, spender@), 0)
    }

    pub open spec fn blocked(&self, a: [u8; 32]) -> bool {
        self.blacklisted.get_or(a@, false)
    }

    /// A token with no supply and no bridge, owned by `owner`.
    pub fn new(owner: [u8; 32]) -> (s: Self)
        ensures
            s.wf(),
            s.name@ == "Bridged USDC (Dina)"@,
            s.symbol@ == "USDC.e"@,
            s.decimals == 6,
            s.total_supply == 0,
            s.owner == owner,
            s.bridge_address is None,
            !s.bridge_locked,
            s.balances@ == Map::<Seq<u8>, u64>::empty(),
            s.allowances@ == Map::<(Seq<u8>, Seq<u8>), u64>::empty(),
            !s.paused,
            s.blacklisted@ == Map::<Seq<u8>, bool>::empty(),
            s.balances.total() == 0,
    {
        BridgedUsdcState {
            name: String::from_str("Bridged USDC (Dina)"),
            symbol: String::from_str("USDC.e"),
            decimals: 6,
            total_supply: 0,
            owner,
            bridge_address: None,
            bridge_locked: false,
            balances: KeyMap::new(),
            allowances: KeyMap::new(),
            paused: false,
            blacklisted: KeyMap::new(),
        }
    }

    pub fn name(&self) -> (r: &str)
        ensures
            r@ == self.name@,
    {
        self.name.as_str()
    }

    pub fn symbol(&self) -> (r: &str)
        ensures
            r@ == self.symbol@,
    {
        self.symbol.as_str()
    }

    pub fn decimals(&self) -> (r: u8)
        ensures
            r == self.decimals,
    {
        self.decimals
    }

    pub fn total_supply(&self) -> (r: u64)
        ensures
            r == self.total_supply,
    {
        self.total_supply
    }

    pub fn balance_of(&self, account: &[u8; 32]) -> (r: u64)
        requires
            self.wf(),
        ensures
            r == self.balance(*account),
    {
        self.balances.get_or_zero(account)
    }

    pub fn allowance(&self, owner: &[u8; 32], spender: &[u8; 32]) -> (r: u64)
        requires
            self.wf(),
        ensures
            r == self.allowed(*owner, *spender),
    {
        self.allowances.get_or_zero(&(*owner, *spender))
    }

    pub fn is_blacklisted(&self, account: &[u8; 32]) -> (r: bool)
        requires
            self.wf(),
        ensures
            r == self.blocked(*account),
    {
        self.blacklisted.get_or_false(account)
    }

    /// The owner sets the bridge address while it is not locked.
    pub fn set_bridge_address(&mut self, caller: [u8; 32], bridge: [u8; 32])
        requires
            caller == old(self).owner,
            !old(self).bridge_locked,
        ensures
            *final(self) == (BridgedUsdcState { bridge_address: Some(bridge), ..*old(self) }),
    {
        self.bridge_address = Some(bridge);
    }

    /// The owner locks the bridge address for good.
    pub fn lock_bridge_address(&mut self, caller: [u8; 32])
        requires
            caller == old(self).owner,
            old(self).bridge_address is Some,
        ensures
            *final(self) == (BridgedUsdcState { bridge_locked: true, ..*old(self) }),
    {
        self.bridge_locked = true;
    }

    pub fn transfer_ownership(&mut self, caller: [u8; 32], new_owner: [u8; 32])
        requires
            caller == old(self).owner,
        ensures
            *final(self) == (BridgedUsdcState { owner: new_owner, ..*old(self) }),
    {
        self.owner = new_owner;
    }

    pub fn pause(&mut self, caller: [u8; 32])
        requires
            caller == old(self).owner,
        ensures
            *final(self) == (BridgedUsdcState { paused: true, ..*old(self) }),
    {
        self.paused = true;
    }

    pub fn unpause(&mut self, caller: [u8; 32])
        requires
            caller == old(self).owner,
        ensures
            *final(self) == (BridgedUsdcState { paused: false, ..*old(self) }),
    {
        self.paused = false;
    }

    pub fn blacklist(&mut self, caller: [u8; 32], account: [u8; 32])
        requires
            old(self).wf(),
            caller == old(self).owner,
        ensures
            final(self).wf(),
            final(self).blacklisted@ == old(self).blacklisted@.insert(account@, true),
            *final(self) == (BridgedUsdcState { blacklisted: final(self).blacklisted, ..*old(self) }),
    {
        self.blacklisted.insert(account, true);
    }

    pub fn unblacklist(&mut self, caller: [u8; 32], account: [u8; 32])
        requires
            old(self).wf(),
            caller == old(self).owner,
        ensures
            final(self).wf(),
            final(self).blacklisted@ == old(self).blacklisted@.remove(account@),
            *final(self) == (BridgedUsdcState { blacklisted: final(self).blacklisted, ..*old(self) }),
    {
        self.blacklisted.remove(&account);
    }

    /// Stores `amount` as the balance of `account`.
    fn set_balance(&mut self, account: [u8; 32], amount: u64)
        requires
            old(self).wf(),
        ensures
            final(self).wf(),
            final(self).balances@ == old(self).balances@.insert(account@, amount),
            final(self).balances.total() == old(self).balances.total() - old(self).balance(account)
                + amount,
            *final(self) == (BridgedUsdcState { balances: final(self).balances, ..*old(self) }),
    {
        let ghost before = self.balances;
        self.balances.insert(account, amount);
        proof {
            KeyMap::lemma_total_insert(before, self.balances, account, amount);
        }
    }

    /// The bridge mints `amount` for `to`.
    pub fn mint(&mut self, caller: [u8; 32], to: [u8; 32], amount: u64)
        requires
            old(self).wf(),
            !old(self).paused,
            old(self).bridge_address == Some(caller),
            !old(self).blocked(to),
            amount > 0,
            old(self).balance(to) + amount <= u64::MAX,
            old(self).total_supply + amount <= u64::MAX,
        ensures
            final(self).wf(),
            final(self).balances@ == old(self).balances@.insert(to@, (old(self).balance(to) + amount) as u64),
            final(self).total_supply == old(self).total_supply + amount,
            final(self).balances.total() == old(self).balances.total() + amount,
            *final(self) == (BridgedUsdcState {
                balances: final(self).balances,
                total_supply: final(self).total_supply,
                ..*old(self)
            }),
    {
        let balance = self.balance_of(&to);
        self.set_balance(to, balance + amount);
        self.total_supply = self.total_supply + amount;
    }

    /// The bridge or the holder burns `amount` of `from`'s balance.
    pub fn burn(&mut self, caller: [u8; 32], from: [u8; 32], amount: u64)
        requires
            old(self).wf(),
            !old(self).paused,
            old(self).bridge_address is Some,
            old(self).bridge_address == Some(caller) || caller == from,
            amount > 0,
            old(self).balance(from) >= amount,
            old(self).total_supply >= amount,
        ensures
            final(self).wf(),
            final(self).balances@ == old(self).balances@.insert(from@, (old(self).balance(from) - amount) as u64),
            final(self).total_supply == old(self).total_supply - amount,
            final(self).balances.total() == old(self).balances.total() - amount,
            *final(self) == (BridgedUsdcState {
                balances: final(self).balances,
                total_supply: final(self).total_supply,
                ..*old(self)
            }),
    {
        let balance = self.balance_of(&from);
        self.set_balance(from, balance - amount);
        self.total_supply = self.total_supply - amount;
    }

    /// Moves `amount` from the caller to `to`; neither may be blacklisted.
    pub fn transfer(&mut self, caller: [u8; 32], to: [u8; 32], amount: u64)
        requires
            old(self).wf(),
            !old(self).paused,
            !old(self).blocked(caller),
            !old(self).blocked(to),
            amount > 0,
            old(self).balance(caller) >= amount,
            caller != to ==> old(self).balance(to) + amount <= u64::MAX,
        ensures
            final(self).wf(),
            caller == to ==> final(self).balances@ == old(self).balances@.insert(
                caller@,
                old(self).balance(caller),
            ),
            caller != to ==> final(self).balances@ == old(self).balances@.insert(
                caller@,
                (old(self).balance(caller) - amount) as u64,
            ).insert(to@, (old(self).balance(to) + amount) as u64),
            final(self).balances.total() == old(self).balances.total(),
            *final(self) == (BridgedUsdcState { balances: final(self).balances, ..*old(self) }),
    {
        proof {
            crate::addr::lemma_addr_view_eq(caller, to);
        }
        let from_balance = self.balance_of(&caller);
        self.set_balance(caller, from_balance - amount);
        let to_balance = self.balance_of(&to);
        self.set_balance(to, to_balance + amount);
    }

    /// Sets the allowance of `spender` over the caller's balance.
    pub fn approve(&mut self, caller: [u8; 32], spender: [u8; 32], amount: u64)
        requires
            old(self).wf(),
            !old(self).paused,
            !old(self).blocked(caller),
        ensures
            final(self).wf(),
            final(self).allowances@ == old(self).allowances@.insert((caller@, spender@), amount),
            *final(self) == (BridgedUsdcState { allowances: final(self).allowances, ..*old(self) }),
    {
        self.allowances.insert((caller, spender), amount);
    }

    /// Moves `amount` from `from` to `to` on the caller's allowance.
    pub fn transfer_from(&mut self, caller: [u8; 32], from: [u8; 32], to: [u8; 32], amount: u64)
        requires
            old(self).wf(),
            !old(self).paused,
            !old(self).blocked(caller),
            !old(self).blocked(from),
            !old(self).blocked(to),
            amount > 0,
            old(self).allowed(from, caller) >= amount,
            old(self).balance(from) >= amount,
            from != to ==> old(self).balance(to) + amount <= u64::MAX,
        ensures
            final(self).wf(),
            final(self).allowances@ == old(self).allowances@.insert(
                (from@, caller@),
                (old(self).allowed(from, caller) - amount) as u64,
            ),
            from == to ==> final(self).balances@ == old(self).balances@.insert(
                from@,
                old(self).balance(from),
            ),
            from != to ==> final(self).balances@ == old(self).balances@.insert(
                from@,
                (old(self).balance(from) - amount) as u64,
            ).insert(to@, (old(self).balance(to) + amount) as u64),
            final(self).balances.total() == old(self).balances.total(),
            *final(self) == (BridgedUsdcState {
                balances: final(self).balances,
                allowances: final(self).allowances,
                ..*old(self)
            }),
    {
        proof {
            crate::addr::lemma_addr_view_eq(from, to);
        }
        let allowed = self.allowance(&from, &caller);
        let from_balance = self.balance_of(&from);
        self.allowances.insert((from, caller), allowed - amount);
        self.set_balance(from, from_balance - amount);
        let to_balance = self.balance_of(&to);
        self.set_balance(to, to_balance + amount);
    }
}

/// Where the total supply is the sum of all balances, which minting, burning
/// and transfers keep (see their `ensures` on `balances.total()`), no account
/// holds more than the total supply.
pub proof fn law_balance_within_supply(s: BridgedUsdcState, account: [u8; 32])
    requires
        s.wf(),
        s.balances.total() == s.total_supply,
    ensures
        s.balance(account) <= s.total_supply,
{
    s.balances.lemma_total_ge(account@);
}

} // verus!
