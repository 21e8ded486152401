//! The registry of the currency stablecoins: each is registered once by
//! symbol, can be updated, and can be deactivated without being removed.
use vstd::prelude::*;
use crate::keymap::KeyMap;

verus! {

/// What the registry records of one currency.
#[derive(Clone, Debug)]
pub struct CurrencyInfo {
    pub symbol: String,
    pub name: String,
    pub decimals: u8,
    pub contract_address: [u8; 32],
    pub oracle_rate: u64,
    pub yield_rate_bps: u64,
    pub total_supply: u64,
    pub usdc_backing: u64,
    pub active: bool,
}

/// The registry.
#[derive(Clone, Debug)]
pub struct CurrencyRegistry {
    pub admin: [u8; 32],
    /// The currencies by symbol, in ascending symbol order.
    pub currencies: KeyMap<String, CurrencyInfo>,
}

/// The new value where one is given, else the old one.
pub open spec fn or_keep(new: Option<u64>, old: u64) -> u64 {
    match new {
        Some(v) => v,
        None => old,
    }
}

/// The currencies of a run of entries, in order.
pub open spec fn infos(es: Seq<(String, CurrencyInfo)>) -> Seq<CurrencyInfo> {
    es.map_values(|e: (String, CurrencyInfo)| e.1)
}

/// The active ones among a run of currencies, in order.
pub open spec fn active_infos(s: Seq<CurrencyInfo>) -> Seq<CurrencyInfo> {
    s.filter(|c: CurrencyInfo| c.active)
}

/// The USDC backing of the active currencies of a run.
pub open spec fn active_backing(s: Seq<CurrencyInfo>) -> int
    decreases s.len(),
{
    if s.len() == 0 {
        0
    } else {
        active_backing(s.drop_last()) + if s.last().active {
            s.last().usdc_backing as int
        } else {
            0
        }
    }
}

/// The backing of a prefix of the currencies is at most that of all of them.
proof fn lemma_active_backing_prefix(s: Seq<CurrencyInfo>, i: int)
    requires
        0 <= i <= s.len(),
    ensures
        0 <= active_backing(s.take(i)) <= active_backing(s),
    decreases s.len(),
{
    if s.len() > 0 {
        if i == s.len() {
            assert(s.take(i) =~= s);
            lemma_active_backing_prefix(s.drop_last(), i - 1);
            assert(s.drop_last().take(i - 1) =~= s.drop_last());
        } else {
            assert(s.take(i) =~= s.drop_last().take(i));
            lemma_active_backing_prefix(s.drop_last(), i);
        }
    }
}

impl CurrencyRegistry {
    pub open spec fn wf(&self) -> bool {
        self.currencies.wf() && self.currencies.sorted()
    }

    /// The currencies, in ascending symbol order.
    pub open spec fn listed(&self) -> Seq<CurrencyInfo> {
        infos(self.currencies.entries())
    }

    /// An empty registry.
    pub fn new(admin: [u8; 32]) -> (r: Self)
        ensures
            r.wf(),
            r.admin == admin,
            r.currencies@ == Map::<Seq<char>, CurrencyInfo>::empty(),
    {
        let currencies = KeyMap::new();
        proof {
            currencies.lemma_new_sorted();
        }
        CurrencyRegistry { admin, currencies }
    }

    /// Registers a new, active currency with no supply or backing; the admin only.
    pub fn register_currency(
        &mut self,
        caller: [u8; 32],
        symbol: String,
        name: String,
        decimals: u8,
        contract_address: [u8; 32],
        oracle_rate: u64,
        yield_rate_bps: u64,
    )
        requires
            old(self).wf(),
            caller == old(self).admin,
            symbol@.len() > 0,
            name@.len() > 0,
            !old(self).currencies@.contains_key(symbol@),
        ensures
            final(self).wf(),
            final(self).currencies@ == old(self).currencies@.insert(
                symbol@,
                CurrencyInfo {
                    symbol,
                    name,
                    decimals,
                    contract_address,
                    oracle_rate,
                    yield_rate_bps,
                    total_supply: 0,
                    usdc_backing: 0,
                    active: true,
                },
            ),
            final(self).admin == old(self).admin,
    {
        let key = symbol.clone();
        self.currencies.insert_sorted(
            key,
            CurrencyInfo {
                symbol,
                name,
                decimals,
                contract_address,
                oracle_rate,
                yield_rate_bps,
                total_supply: 0,
                usdc_backing: 0,
                active: true,
            },
        );
    }

    /// The index of a registered currency among the entries.
    fn index_of(&self, symbol: &String) -> (i: usize)
        requires
            self.wf(),
            self.currencies@.contains_key(symbol@),
        ensures
            i < self.currencies.entries().len(),
            self.currencies.entries()[i as int].0@ == symbol@,
            self.currencies.entries()[i as int].1 == self.currencies@[symbol@],
    {
        match self.currencies.find(symbol) {
            Some(i) => {
                proof {
                    self.currencies.lemma_entry(i as int);
                }
                i
            },
            None => {
                assert(false);
                0
            },
        }
    }

    /// Updates the given fields of a registered currency; the admin only.
    pub fn update_currency(
        &mut self,
        caller: [u8; 32],
        symbol: String,
        oracle_rate: Option<u64>,
        yield_rate_bps: Option<u64>,
        total_supply: Option<u64>,
        usdc_backing: Option<u64>,
    )
        requires
            old(self).wf(),
            caller == old(self).admin,
            old(self).currencies@.contains_key(symbol@),
        ensures
            final(self).wf(),
            ({
                let c = old(self).currencies@[symbol@];
                final(self).currencies@ == old(self).currencies@.insert(
                    symbol@,
                    CurrencyInfo {
                        oracle_rate: or_keep(oracle_rate, c.oracle_rate),
                        yield_rate_bps: or_keep(yield_rate_bps, c.yield_rate_bps),
                        total_supply: or_keep(total_supply, c.total_supply),
                        usdc_backing: or_keep(usdc_backing, c.usdc_backing),
                        ..c
                    },
                )
            }),
            final(self).admin == old(self).admin,
    {
        let i = self.index_of(&symbol);
        let ghost before = self.currencies;
        {
            let info = self.currencies.value_mut_at(i);
            if let Some(rate) = oracle_rate {
                info.oracle_rate = rate;
            }
            if let Some(yield_bps) = yield_rate_bps {
                info.yield_rate_bps = yield_bps;
            }
            if let Some(supply) = total_supply {
                info.total_supply = supply;
            }
            if let Some(backing) = usdc_backing {
                info.usdc_backing = backing;
            }
        }
        proof {
            KeyMap::lemma_set_at(before, self.currencies, i as int);
        }
    }

    /// Sets whether a registered currency is active.
    fn set_active(&mut self, symbol: &String, active: bool)
        requires
            old(self).wf(),
            old(self).currencies@.contains_key(symbol@),
        ensures
            final(self).wf(),
            final(self).currencies@ == old(self).currencies@.insert(
                symbol@,
                CurrencyInfo { active, ..old(self).currencies@[symbol@] },
            ),
            final(self).admin == old(self).admin,
    {
        let i = self.index_of(symbol);
        let ghost before = self.currencies;
        {
            let info = self.currencies.value_mut_at(i);
            info.active = active;
        }
        proof {
            KeyMap::lemma_set_at(before, self.currencies, i as int);
        }
    }

    /// Marks a registered currency inactive, keeping it; the admin only.
    pub fn deactivate_currency(&mut self, caller: [u8; 32], symbol: String)
        requires
            old(self).wf(),
            caller == old(self).admin,
            old(self).currencies@.contains_key(symbol@),
        ensures
            final(self).wf(),
            final(self).currencies@ == old(self).currencies@.insert(
                symbol@,
                CurrencyInfo { active: false, ..old(self).currencies@[symbol@] },
            ),
            final(self).admin == old(self).admin,
    {
        self.set_active(&symbol, false);
    }

    /// Marks a registered currency active again; the admin only.
    pub fn activate_currency(&mut self, caller: [u8; 32], symbol: String)
        requires
            old(self).wf(),
            caller == old(self).admin,
            old(self).currencies@.contains_key(symbol@),
        ensures
            final(self).wf(),
            final(self).currencies@ == old(self).currencies@.insert(
                symbol@,
                CurrencyInfo { active: true, ..old(self).currencies@[symbol@] },
            ),
            final(self).admin == old(self).admin,
    {
        self.set_active(&symbol, true);
    }

    /// The currency registered as `symbol`.
    pub fn get_currency(&self, symbol: &str) -> (r: Option<&CurrencyInfo>)
        requires
            self.wf(),
        ensures
            match r {
                Some(c) => self.currencies@.contains_key(symbol@) && *c == self.currencies@[symbol@],
                None => !self.currencies@.contains_key(symbol@),
            },
    {
        let key = String::from_str(symbol);
        self.currencies.get(&key)
    }

    /// All currencies, in ascending symbol order.
    pub fn list_currencies(&self) -> (r: Vec<&CurrencyInfo>)
        requires
            self.wf(),
        ensures
            r@.map_values(|c: &CurrencyInfo| *c) == self.listed(),
    {
        let n = self.currencies.len();
        let mut r: Vec<&CurrencyInfo> = Vec::new();
        let mut i: usize = 0;
        while i < n
            invariant
                i <= n,
                n == self.currencies.entries().len(),
                r@.map_values(|c: &CurrencyInfo| *c) == self.listed().take(i as int),
            decreases n - i,
        {
            let ghost before = r@;
            r.push(self.currencies.value_at(i));
            proof {
                assert(r@ == before.push(&self.currencies.entries()[i as int].1));
                assert(r@.map_values(|c: &CurrencyInfo| *c) =~= before.map_values(
                    |c: &CurrencyInfo| *c,
                ).push(self.currencies.entries()[i as int].1));
                assert(self.listed().take(i + 1) =~= self.listed().take(i as int).push(
                    self.listed()[i as int],
                ));
                assert(r@.map_values(|c: &CurrencyInfo| *c) =~= self.listed().take(i + 1));
            }
            i += 1;
        }
        proof {
            assert(self.listed().take(n as int) =~= self.listed());
        }
        r
    }

    /// The active currencies, in ascending symbol order.
    pub fn list_active_currencies(&self) -> (r: Vec<&CurrencyInfo>)
        requires
            self.wf(),
        ensures
            r@.map_values(|c: &CurrencyInfo| *c) == active_infos(self.listed()),
    {
        let ghost pred = |c: CurrencyInfo| c.active;
        let n = self.currencies.len();
        let mut r: Vec<&CurrencyInfo> = Vec::new();
        let mut i: usize = 0;
        while i < n
            invariant
                i <= n,
                n == self.currencies.entries().len(),
                pred == (|c: CurrencyInfo| c.active),
                r@.map_values(|c: &CurrencyInfo| *c) == self.listed().take(i as int).filter(pred),
            decreases n - i,
        {
            let c = self.currencies.value_at(i);
            proof {
                assert(self.listed().take(i + 1) =~= self.listed().take(i as int).push(*c));
                self.listed().take(i as int).lemma_filter_push(*c, pred);
            }
            if c.active {
                let ghost before = r@;
                r.push(c);
                assert(r@.map_values(|c: &CurrencyInfo| *c) =~= before.map_values(
                    |c: &CurrencyInfo| *c,
                ).push(*c));
            }
            i += 1;
        }
        proof {
            assert(self.listed().take(n as int) =~= self.listed());
        }
        r
    }

    /// The USDC backing of the active currencies together.
    pub fn total_usdc_backing(&self) -> (r: u64)
        requires
            self.wf(),
            active_backing(self.listed()) <= u64::MAX,
        ensures
            r == active_backing(self.listed()),
    {
        let n = self.currencies.len();
        let ghost s = self.listed();
        let mut total: u64 = 0;
        let mut i: usize = 0;
        while i < n
            invariant
                i <= n,
                n == s.len(),
                s == self.listed(),
                total == active_backing(s.take(i as int)),
                active_backing(s) <= u64::MAX,
            decreases n - i,
        {
            let c = self.currencies.value_at(i);
            proof {
                assert(s.take(i + 1).drop_last() =~= s.take(i as int));
                assert(s.take(i + 1).last() == s[i as int]);
                lemma_active_backing_prefix(s, i + 1);
            }
            if c.active {
                total = total + c.usdc_backing;
            }
            i += 1;
        }
        proof {
            assert(s.take(n as int) =~= s);
        }
        total
    }

    /// The number of registered currencies.
    pub fn currency_count(&self) -> (r: usize)
        requires
            self.wf(),
        ensures
            r == self.currencies@.len(),
            r == self.listed().len(),
    {
        self.currencies.len()
    }

    /// The number of active currencies.
    pub fn active_count(&self) -> (r: usize)
        requires
            self.wf(),
        ensures
            r == active_infos(self.listed()).len(),
    {
        let ghost pred = |c: CurrencyInfo| c.active;
        let n = self.currencies.len();
        let mut count: usize = 0;
        let mut i: usize = 0;
        while i < n
            invariant
                i <= n,
                n == self.currencies.entries().len(),
                pred == (|c: CurrencyInfo| c.active),
                count == self.listed().take(i as int).filter(pred).len(),
                count <= i,
            decreases n - i,
        {
            let c = self.currencies.value_at(i);
            proof {
                assert(self.listed().take(i + 1) =~= self.listed().take(i as int).push(*c));
                self.listed().take(i as int).lemma_filter_push(*c, pred);
            }
            if c.active {
                count = count + 1;
            }
            i += 1;
        }
        proof {
            assert(self.listed().take(n as int) =~= self.listed());
        }
        count
    }
}

/// There are never more active currencies than registered ones.
pub proof fn law_active_within_registered(r: CurrencyRegistry)
    requires
        r.wf(),
    ensures
        active_infos(r.listed()).len() <= r.currencies@.len(),
{
    r.listed().lemma_filter_len(|c: CurrencyInfo| c.active);
    crate::keymap::lemma_entries_map_len(r.currencies.entries());
}

} // verus!
