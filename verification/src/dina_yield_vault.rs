//! The vault that backs the currency stablecoins with USDC. A deposit locks
//! USDC and mints stablecoin at the oracle rate; the locked USDC earns yield,
//! which is added to the backing when claimed; a withdrawal burns stablecoin
//! and releases USDC at the current rate.
use vstd::prelude::*;
use crate::addr::{push_addr_once, remove_addr};
use crate::keymap::{KeyMap, OrdKey};
use crate::math::{accrued_yield, lemma_mul_u64_fits, mul_div, sat_add, sat_sub, yield_on};

verus! {

pub const SECONDS_PER_YEAR: u64 = 31_536_000;

pub const BPS_DENOMINATOR: u64 = 10_000;

/// Rate snapshots kept per currency: thirty days of hourly snapshots.
pub const MAX_RATE_HISTORY: usize = 720;

/// Default yield rate: 4.5% a year.
pub const DEFAULT_YIELD_RATE_BPS: u64 = 450;

/// Seconds between two rate snapshots.
pub const SNAPSHOT_INTERVAL: u64 = 3600;

/// A user's deposit in one currency.
#[derive(Clone, Debug)]
pub struct VaultDeposit {
    /// USDC locked as backing (micro-USDC).
    pub usdc_locked: u64,
    /// Currency code, such as "CAD".
    pub currency: String,
    /// Stablecoin minted to the user (micro-units).
    pub stablecoin_minted: u64,
    /// Oracle rate at the first deposit (micro-units of currency per USDC).
    pub deposit_rate: u64,
    pub deposit_time: u64,
    pub last_yield_claim: u64,
    pub total_usdc_yield_claimed: u64,
    pub total_currency_yield_claimed: u64,
}

/// A rate observed at a time.
#[derive(Clone, Debug)]
pub struct RateSnapshot {
    pub rate: u64,
    pub timestamp: u64,
}

/// What the vault tracks for one currency.
#[derive(Clone, Debug)]
pub struct CurrencyInfo {
    pub current_rate: u64,
    pub last_rate_update: u64,
    /// Snapshots, newest first, at most `MAX_RATE_HISTORY` of them.
    pub rate_history: Vec<RateSnapshot>,
    pub total_usdc_backing: u64,
    pub total_stablecoin_supply: u64,
    pub total_yield_distributed_usdc: u64,
}

/// The value of a `CurrencyInfo`, with its history as a sequence.
pub struct InfoView {
    pub current_rate: u64,
    pub last_rate_update: u64,
    pub rate_history: Seq<RateSnapshot>,
    pub total_usdc_backing: u64,
    pub total_stablecoin_supply: u64,
    pub total_yield_distributed_usdc: u64,
}

impl View for CurrencyInfo {
    type V = InfoView;

    open spec fn view(&self) -> InfoView {
        InfoView {
            current_rate: self.current_rate,
            last_rate_update: self.last_rate_update,
            rate_history: self.rate_history@,
            total_usdc_backing: self.total_usdc_backing,
            total_stablecoin_supply: self.total_stablecoin_supply,
            total_yield_distributed_usdc: self.total_yield_distributed_usdc,
        }
    }
}

/// Rate statistics over the last day, week and thirty days of snapshots.
#[derive(Clone, Debug)]
pub struct RateStats {
    pub current: u64,
    pub high_24h: u64,
    pub low_24h: u64,
    pub avg_24h: u64,
    pub high_7d: u64,
    pub low_7d: u64,
    pub avg_7d: u64,
    pub high_30d: u64,
    pub low_30d: u64,
    pub avg_30d: u64,
    pub change_24h_bps: i64,
    pub change_7d_bps: i64,
    pub change_30d_bps: i64,
}

/// The reserves behind one currency.
#[derive(Clone, Debug)]
pub struct CurrencyReserveProof {
    pub currency: String,
    pub stablecoin_supply: u64,
    pub usdc_backing: u64,
    pub current_rate: u64,
    /// The supply valued in USDC at the current rate.
    pub supply_value_in_usdc: u64,
    pub is_backed: bool,
    /// Backing over supply value, 10000 being exactly one to one.
    pub collateral_ratio_bps: u64,
}

/// The reserves behind all currencies.
#[derive(Clone, Debug)]
pub struct ProofOfReserves {
    pub total_usdc_in_vault: u64,
    pub per_currency: Vec<CurrencyReserveProof>,
    pub is_fully_backed: bool,
    /// How far the backing exceeds the supply value, in basis points.
    pub overcollateral_bps: u64,
    pub timestamp: u64,
}

/// The state of the vault.
#[derive(Clone, Debug)]
pub struct YieldVault {
    pub admin: [u8; 32],
    pub yield_rate_bps: u64,
    /// Deposits by user, then by currency in ascending order.
    pub deposits: KeyMap<[u8; 32], KeyMap<String, VaultDeposit>>,
    /// Currencies in ascending order.
    pub currencies: KeyMap<String, CurrencyInfo>,
    pub oracle_updaters: Vec<[u8; 32]>,
    pub total_usdc_locked: u64,
    pub total_yield_distributed: u64,
    pub paused: bool,
}

/// The stablecoin minted for `usdc` at `rate` micro-units per USDC.
pub open spec fn minted_for(usdc: u64, rate: u64) -> u64 {
    ((usdc as int * rate as int) / 1_000_000) as u64
}

/// The USDC released for `amount` of stablecoin at `rate`.
pub open spec fn released_for(amount: u64, rate: u64) -> u64 {
    ((amount as int * 1_000_000) / (rate as int)) as u64
}

/// A deposit not yet holding anything.
pub open spec fn fresh_deposit(currency: String, rate: u64, now: u64) -> VaultDeposit {
    VaultDeposit {
        usdc_locked: 0,
        currency,
        stablecoin_minted: 0,
        deposit_rate: rate,
        deposit_time: now,
        last_yield_claim: now,
        total_usdc_yield_claimed: 0,
        total_currency_yield_claimed: 0,
    }
}

/// A currency first seen at `rate` at `now`.
pub open spec fn fresh_info(rate: u64, now: u64) -> InfoView {
    InfoView {
        current_rate: rate,
        last_rate_update: now,
        rate_history: Seq::empty(),
        total_usdc_backing: 0,
        total_stablecoin_supply: 0,
        total_yield_distributed_usdc: 0,
    }
}

/// A deposit once its pending yield `y` is claimed at `now`: the USDC yield
/// is added to the backing.
pub open spec fn claimed(d: VaultDeposit, y: (u64, u64, u64), now: u64) -> VaultDeposit {
    VaultDeposit {
        last_yield_claim: now,
        total_usdc_yield_claimed: sat_add(d.total_usdc_yield_claimed, y.0),
        total_currency_yield_claimed: sat_add(d.total_currency_yield_claimed, y.1),
        usdc_locked: sat_add(d.usdc_locked, y.0),
        ..d
    }
}

/// A currency after the oracle reports `rate` at `now`: a snapshot is taken
/// when there is none yet or an interval has passed since the last update.
pub open spec fn rate_updated(i: InfoView, rate: u64, now: u64) -> InfoView {
    let snapshot = i.rate_history.len() == 0 || now >= i.last_rate_update + SNAPSHOT_INTERVAL;
    let h = seq![RateSnapshot { rate, timestamp: now }] + i.rate_history;
    InfoView {
        current_rate: rate,
        last_rate_update: now,
        rate_history: if !snapshot {
            i.rate_history
        } else if h.len() > MAX_RATE_HISTORY {
            h.take(MAX_RATE_HISTORY as int)
        } else {
            h
        },
        ..i
    }
}

impl YieldVault {
    pub open spec fn wf(&self) -> bool {
        &&& self.deposits.wf()
        &&& forall|a: Seq<u8>| #[trigger]
            self.deposits@.contains_key(a) ==> self.deposits@[a].wf() && self.deposits@[a].sorted()
        &&& self.currencies.wf()
        &&& self.currencies.sorted()
        &&& forall|c: Seq<char>| #[trigger]
            self.currencies@.contains_key(c) ==> self.currencies@[c].rate_history@.len()
                <= MAX_RATE_HISTORY
    }

    /// The deposits by user and currency.
    pub open spec fn deposits_view(&self) -> Map<Seq<u8>, Map<Seq<char>, VaultDeposit>> {
        self.deposits@.map_values(|m: KeyMap<String, VaultDeposit>| m@)
    }

    /// The deposits of user `a` by currency.
    pub open spec fn user_view(&self, a: Seq<u8>) -> Map<Seq<char>, VaultDeposit> {
        if self.deposits@.contains_key(a) {
            self.deposits@[a]@
        } else {
            Map::empty()
        }
    }

    /// The currencies by code.
    pub open spec fn currency_views(&self) -> Map<Seq<char>, InfoView> {
        self.currencies@.map_values(|i: CurrencyInfo| i@)
    }

    /// The current rate of currency `c`, or zero for an unknown currency.
    pub open spec fn rate_of(&self, c: Seq<char>) -> u64 {
        if self.currencies@.contains_key(c) {
            self.currencies@[c].current_rate
        } else {
            0
        }
    }

    /// The deposit of `a` in `currency`, or a new one at `rate` and `now`.
    pub open spec fn deposit_or_fresh(&self, a: Seq<u8>, currency: String, rate: u64, now: u64) -> VaultDeposit {
        if self.user_view(a).contains_key(currency@) {
            self.user_view(a)[currency@]
        } else {
            fresh_deposit(currency, rate, now)
        }
    }

    /// Currency `c`, or a new one at `rate` and `now`.
    pub open spec fn info_or_fresh(&self, c: Seq<char>, rate: u64, now: u64) -> InfoView {
        if self.currency_views().contains_key(c) {
            self.currency_views()[c]
        } else {
            fresh_info(rate, now)
        }
    }

    /// The yield pending on the deposit of `a` in `c` at `now`: the USDC
    /// yield at the vault's rate since the last claim, that yield in the
    /// currency at its current rate, and that rate.
    pub open spec fn pending(&self, a: Seq<u8>, c: Seq<char>, now: u64) -> (u64, u64, u64) {
        if !self.user_view(a).contains_key(c) {
            (0, 0, 0)
        } else {
            let d = self.user_view(a)[c];
            let rate = self.rate_of(c);
            if d.usdc_locked == 0 {
                (0, 0, 0)
            } else if now <= d.last_yield_claim {
                (0, 0, rate)
            } else {
                let y = yield_on(d.usdc_locked, self.yield_rate_bps, (now - d.last_yield_claim) as u64);
                (y, if rate > 0 {
                    ((y as int * rate as int) / 1_000_000) as u64
                } else {
                    0
                }, rate)
            }
        }
    }

    /// The deposits once `a` claims its yield in `c` at `now`.
    pub open spec fn claim_deposits(&self, a: Seq<u8>, c: Seq<char>, now: u64) -> Map<Seq<u8>, Map<Seq<char>, VaultDeposit>> {
        let y = self.pending(a, c, now);
        if y.0 == 0 {
            self.deposits_view()
        } else {
            self.deposits_view().insert(a, self.user_view(a).insert(c, claimed(self.user_view(a)[c], y, now)))
        }
    }

    /// The currencies once `a` claims its yield in `c` at `now`.
    pub open spec fn claim_currencies(&self, a: Seq<u8>, c: Seq<char>, now: u64) -> Map<Seq<char>, InfoView> {
        let y = self.pending(a, c, now);
        let cv = self.currency_views();
        if y.0 > 0 && cv.contains_key(c) {
            cv.insert(c, InfoView {
                total_usdc_backing: sat_add(cv[c].total_usdc_backing, y.0),
                total_yield_distributed_usdc: sat_add(cv[c].total_yield_distributed_usdc, y.0),
                ..cv[c]
            })
        } else {
            cv
        }
    }
}

impl VaultDeposit {
    /// A copy of the deposit.
    pub fn duplicate(&self) -> (r: Self)
        ensures
            r == *self,
    {
        VaultDeposit {
            usdc_locked: self.usdc_locked,
            currency: self.currency.clone(),
            stablecoin_minted: self.stablecoin_minted,
            deposit_rate: self.deposit_rate,
            deposit_time: self.deposit_time,
            last_yield_claim: self.last_yield_claim,
            total_usdc_yield_claimed: self.total_usdc_yield_claimed,
            total_currency_yield_claimed: self.total_currency_yield_claimed,
        }
    }
}

/// A copy of a run of snapshots.
fn copy_snapshots(h: &[RateSnapshot], count: usize) -> (r: Vec<RateSnapshot>)
    requires
        count <= h@.len(),
    ensures
        r@ == h@.take(count as int),
{
    let mut r: Vec<RateSnapshot> = Vec::new();
    let mut i: usize = 0;
    while i < count
        invariant
            i <= count <= h@.len(),
            r@ == h@.take(i as int),
        decreases count - i,
    {
        r.push(RateSnapshot { rate: h[i].rate, timestamp: h[i].timestamp });
        assert(h@.take(i + 1) =~= h@.take(i as int).push(h@[i as int]));
        i += 1;
    }
    r
}

impl YieldVault {
    /// An empty vault.
    pub fn new(admin: [u8; 32], yield_rate_bps: u64) -> (v: Self)
        ensures
            v.wf(),
            v.admin == admin,
            v.yield_rate_bps == yield_rate_bps,
            v.deposits@ == Map::<Seq<u8>, KeyMap<String, VaultDeposit>>::empty(),
            v.currencies@ == Map::<Seq<char>, CurrencyInfo>::empty(),
            v.oracle_updaters@ == Seq::<[u8; 32]>::empty(),
            v.total_usdc_locked == 0,
            v.total_yield_distributed == 0,
            !v.paused,
    {
        let currencies = KeyMap::new();
        proof {
            currencies.lemma_new_sorted();
        }
        YieldVault {
            admin,
            yield_rate_bps,
            deposits: KeyMap::new(),
            currencies,
            oracle_updaters: Vec::new(),
            total_usdc_locked: 0,
            total_yield_distributed: 0,
            paused: false,
        }
    }

    /// Locks `usdc_amount` of USDC for the caller in `currency` and returns
    /// the stablecoin minted for it at `oracle_rate`.
    pub fn deposit(
        &mut self,
        caller: [u8; 32],
        usdc_amount: u64,
        currency: String,
        oracle_rate: u64,
        timestamp: u64,
    ) -> (r: u64)
        requires
            old(self).wf(),
            !old(self).paused,
            usdc_amount > 0,
            oracle_rate > 0,
            minted_for(usdc_amount, oracle_rate) > 0,
            ({
                let d = old(self).deposit_or_fresh(caller@, currency, oracle_rate, timestamp);
                &&& d.usdc_locked + usdc_amount <= u64::MAX
                &&& d.stablecoin_minted + minted_for(usdc_amount, oracle_rate) <= u64::MAX
            }),
            ({
                let i = old(self).info_or_fresh(currency@, oracle_rate, timestamp);
                &&& i.total_usdc_backing + usdc_amount <= u64::MAX
                &&& i.total_stablecoin_supply + minted_for(usdc_amount, oracle_rate) <= u64::MAX
            }),
            old(self).total_usdc_locked + usdc_amount <= u64::MAX,
        ensures
            r == minted_for(usdc_amount, oracle_rate),
            final(self).wf(),
            ({
                let d = old(self).deposit_or_fresh(caller@, currency, oracle_rate, timestamp);
                final(self).deposits_view() == old(self).deposits_view().insert(
                    caller@,
                    old(self).user_view(caller@).insert(
                        currency@,
                        VaultDeposit {
                            usdc_locked: (d.usdc_locked + usdc_amount) as u64,
                            stablecoin_minted: (d.stablecoin_minted + r) as u64,
                            ..d
                        },
                    ),
                )
            }),
            ({
                let i = old(self).info_or_fresh(currency@, oracle_rate, timestamp);
                final(self).currency_views() == old(self).currency_views().insert(
                    currency@,
                    InfoView {
                        total_usdc_backing: (i.total_usdc_backing + usdc_amount) as u64,
                        total_stablecoin_supply: (i.total_stablecoin_supply + r) as u64,
                        ..i
                    },
                )
            }),
            final(self).total_usdc_locked == old(self).total_usdc_locked + usdc_amount,
            *final(self) == (YieldVault {
                deposits: final(self).deposits,
                currencies: final(self).currencies,
                total_usdc_locked: final(self).total_usdc_locked,
                ..*old(self)
            }),
    {
        let amount = mul_div(usdc_amount, oracle_rate, 1_000_000);
        let ghost d0 = old(self).deposit_or_fresh(caller@, currency, oracle_rate, timestamp);
        let ghost i0 = old(self).info_or_fresh(currency@, oracle_rate, timestamp);

        // The caller's deposit.
        let ui = match self.deposits.find(&caller) {
            Some(i) => i,
            None => {
                let inner: KeyMap<String, VaultDeposit> = KeyMap::new();
                proof {
                    inner.lemma_new_sorted();
                }
                self.deposits.insert(caller, inner);
                proof {
                    assert(self.deposits.entries().last().1@ == Map::<Seq<char>, VaultDeposit>::empty());
                }
                self.deposits.len() - 1
            },
        };
        let ghost deps1 = self.deposits;
        proof {
            deps1.lemma_entry(ui as int);
            assert(deps1.entries()[ui as int].0@ == caller@);
            assert(self.deposits_view() =~= old(self).deposits_view().insert(caller@, old(self).user_view(caller@)));
        }
        let ghost inner0 = deps1.entries()[ui as int].1;
        let ghost new_dep = VaultDeposit {
            usdc_locked: (d0.usdc_locked + usdc_amount) as u64,
            stablecoin_minted: (d0.stablecoin_minted + amount) as u64,
            ..d0
        };
        {
            let inner = self.deposits.value_mut_at(ui);
            let d = match inner.get(&currency) {
                Some(d) => d.duplicate(),
                None => VaultDeposit {
                    usdc_locked: 0,
                    currency: currency.clone(),
                    stablecoin_minted: 0,
                    deposit_rate: oracle_rate,
                    deposit_time: timestamp,
                    last_yield_claim: timestamp,
                    total_usdc_yield_claimed: 0,
                    total_currency_yield_claimed: 0,
                },
            };
            assert(d == d0);
            let nd = VaultDeposit {
                usdc_locked: d.usdc_locked + usdc_amount,
                stablecoin_minted: d.stablecoin_minted + amount,
                ..d
            };
            inner.insert_sorted(currency.clone(), nd);
        }
        proof {
            KeyMap::lemma_set_at(deps1, self.deposits, ui as int);
            assert(self.deposits_view() =~= old(self).deposits_view().insert(
                caller@,
                old(self).user_view(caller@).insert(currency@, new_dep),
            ));
        }

        // The currency's totals.
        let info = match self.currencies.get(&currency) {
            Some(i) => CurrencyInfo {
                current_rate: i.current_rate,
                last_rate_update: i.last_rate_update,
                rate_history: copy_snapshots(i.rate_history.as_slice(), i.rate_history.len()),
                total_usdc_backing: i.total_usdc_backing + usdc_amount,
                total_stablecoin_supply: i.total_stablecoin_supply + amount,
                total_yield_distributed_usdc: i.total_yield_distributed_usdc,
            },
            None => CurrencyInfo {
                current_rate: oracle_rate,
                last_rate_update: timestamp,
                rate_history: Vec::new(),
                total_usdc_backing: usdc_amount,
                total_stablecoin_supply: amount,
                total_yield_distributed_usdc: 0,
            },
        };
        proof {
            if old(self).currencies@.contains_key(currency@) {
                assert(old(self).currencies@[currency@].rate_history@.take(
                    old(self).currencies@[currency@].rate_history@.len() as int,
                ) =~= old(self).currencies@[currency@].rate_history@);
            }
        }
        self.currencies.insert_sorted(currency, info);
        self.total_usdc_locked = self.total_usdc_locked + usdc_amount;
        proof {
            assert(self.currency_views() =~= old(self).currency_views().insert(
                currency@,
                InfoView {
                    total_usdc_backing: (i0.total_usdc_backing + usdc_amount) as u64,
                    total_stablecoin_supply: (i0.total_stablecoin_supply + amount) as u64,
                    ..i0
                },
            ));
            assert forall|a: Seq<u8>| #[trigger] self.deposits@.contains_key(a) implies self.deposits@[a].wf()
                && self.deposits@[a].sorted() by {
                if a != caller@ {
                    assert(old(self).deposits@.contains_key(a));
                }
            }
        }
        amount
    }
}

impl YieldVault {
    /// The deposit of `address` in `currency`.
    pub fn get_deposit(&self, address: &[u8; 32], currency: &str) -> (r: Option<&VaultDeposit>)
        requires
            self.wf(),
        ensures
            match r {
                Some(d) => self.user_view(address@).contains_key(currency@) && *d == self.user_view(
                    address@,
                )[currency@],
                None => !self.user_view(address@).contains_key(currency@),
            },
    {
        let key = String::from_str(currency);
        match self.deposits.get(address) {
            Some(m) => {
                proof {
                    assert(self.deposits@.contains_key(address@));
                }
                m.get(&key)
            },
            None => None,
        }
    }

    /// The current rate of a currency, zero for an unknown one.
    fn rate_for(&self, key: &String) -> (r: u64)
        requires
            self.wf(),
        ensures
            r == self.rate_of(key@),
    {
        match self.currencies.get(key) {
            Some(i) => i.current_rate,
            None => 0,
        }
    }

    /// The yield pending on a deposit at `current_time`: in USDC, in the
    /// deposit's currency at its current rate, and that rate.
    pub fn calculate_pending_yield(&self, address: &[u8; 32], currency: &str, current_time: u64) -> (r: (
        u64,
        u64,
        u64,
    ))
        requires
            self.wf(),
        ensures
            r == self.pending(address@, currency@, current_time),
    {
        let d = match self.get_deposit(address, currency) {
            Some(d) => d,
            None => return (0, 0, 0),
        };
        if d.usdc_locked == 0 {
            return (0, 0, 0);
        }
        let key = String::from_str(currency);
        let current_rate = self.rate_for(&key);
        if current_time <= d.last_yield_claim {
            return (0, 0, current_rate);
        }
        let elapsed = current_time - d.last_yield_claim;
        let usdc_yield = accrued_yield(d.usdc_locked, self.yield_rate_bps, elapsed);
        let currency_yield = if current_rate > 0 {
            mul_div(usdc_yield, current_rate, 1_000_000)
        } else {
            0
        };
        (usdc_yield, currency_yield, current_rate)
    }

    /// The yield pending on a deposit at `current_time`.
    pub fn get_pending_yield(&self, address: &[u8; 32], currency: &str, current_time: u64) -> (r: (
        u64,
        u64,
        u64,
    ))
        requires
            self.wf(),
        ensures
            r == self.pending(address@, currency@, current_time),
    {
        self.calculate_pending_yield(address, currency, current_time)
    }

    /// Claims the caller's pending yield in `currency`, adding the USDC yield
    /// to the backing; returns what `calculate_pending_yield` reports.
    pub fn claim_yield(&mut self, caller: [u8; 32], currency: &str, current_time: u64) -> (r: (
        u64,
        u64,
        u64,
    ))
        requires
            old(self).wf(),
            !old(self).paused,
        ensures
            r == old(self).pending(caller@, currency@, current_time),
            final(self).wf(),
            final(self).deposits_view() == old(self).claim_deposits(caller@, currency@, current_time),
            final(self).currency_views() == old(self).claim_currencies(
                caller@,
                currency@,
                current_time,
            ),
            final(self).total_usdc_locked == sat_add(old(self).total_usdc_locked, r.0),
            final(self).total_yield_distributed == sat_add(old(self).total_yield_distributed, r.0),
            *final(self) == (YieldVault {
                deposits: final(self).deposits,
                currencies: final(self).currencies,
                total_usdc_locked: final(self).total_usdc_locked,
                total_yield_distributed: final(self).total_yield_distributed,
                ..*old(self)
            }),
    {
        let (usdc_yield, currency_yield, rate) = self.calculate_pending_yield(
            &caller,
            currency,
            current_time,
        );
        if usdc_yield == 0 {
            proof {
                assert(usdc_yield as int * rate as int == 0) by (nonlinear_arith)
                    requires
                        usdc_yield == 0,
                ;
                assert(self.deposits_view() =~= old(self).claim_deposits(caller@, currency@, current_time));
                assert(self.currency_views() =~= old(self).claim_currencies(caller@, currency@, current_time));
            }
            return (0, 0, rate);
        }
        let ghost y = (usdc_yield, currency_yield, rate);
        let key = String::from_str(currency);
        let ui = match self.deposits.find(&caller) {
            Some(i) => i,
            None => {
                assert(false);
                return (0, 0, 0);
            },
        };
        let ghost deps0 = self.deposits;
        proof {
            deps0.lemma_entry(ui as int);
        }
        let ghost d0 = old(self).user_view(caller@)[currency@];
        {
            let inner = self.deposits.value_mut_at(ui);
            let ghost inner0 = *inner;
            let ci = match inner.find(&key) {
                Some(i) => i,
                None => {
                    assert(false);
                    return (0, 0, 0);
                },
            };
            proof {
                inner0.lemma_entry(ci as int);
            }
            let dep = inner.value_mut_at(ci);
            dep.last_yield_claim = current_time;
            dep.total_usdc_yield_claimed = dep.total_usdc_yield_claimed.saturating_add(usdc_yield);
            dep.total_currency_yield_claimed = dep.total_currency_yield_claimed.saturating_add(
                currency_yield,
            );
            dep.usdc_locked = dep.usdc_locked.saturating_add(usdc_yield);
            proof {
                KeyMap::lemma_set_at(inner0, *inner, ci as int);
                assert(inner@ == inner0@.insert(currency@, claimed(d0, y, current_time)));
            }
        }
        proof {
            KeyMap::lemma_set_at(deps0, self.deposits, ui as int);
            assert(self.deposits_view() =~= old(self).claim_deposits(caller@, currency@, current_time));
        }
        self.total_usdc_locked = self.total_usdc_locked.saturating_add(usdc_yield);
        self.total_yield_distributed = self.total_yield_distributed.saturating_add(usdc_yield);
        match self.currencies.find(&key) {
            Some(k) => {
                let ghost cur0 = self.currencies;
                proof {
                    cur0.lemma_entry(k as int);
                }
                let info = self.currencies.value_mut_at(k);
                info.total_usdc_backing = info.total_usdc_backing.saturating_add(usdc_yield);
                info.total_yield_distributed_usdc = info.total_yield_distributed_usdc.saturating_add(
                    usdc_yield,
                );
                proof {
                    KeyMap::lemma_set_at(cur0, self.currencies, k as int);
                }
            },
            None => {},
        }
        proof {
            assert(self.currency_views() =~= old(self).claim_currencies(caller@, currency@, current_time));
            assert forall|a: Seq<u8>| #[trigger] self.deposits@.contains_key(a) implies self.deposits@[a].wf()
                && self.deposits@[a].sorted() by {
                if a != caller@ {
                    assert(old(self).deposits@.contains_key(a));
                }
            }
            assert forall|c: Seq<char>| #[trigger] self.currencies@.contains_key(c) implies self.currencies@[c].rate_history@.len()
                <= MAX_RATE_HISTORY by {
                assert(old(self).currencies@.contains_key(c));
            }
        }
        (usdc_yield, currency_yield, rate)
    }

    /// Burns `stablecoin_amount` of the caller's stablecoin in `currency`
    /// after claiming its pending yield, and returns the USDC released for
    /// it at the current rate.
    pub fn withdraw(&mut self, caller: [u8; 32], currency: &str, stablecoin_amount: u64, current_time: u64) -> (r: u64)
        requires
            old(self).wf(),
            !old(self).paused,
            stablecoin_amount > 0,
            old(self).currencies@.contains_key(currency@),
            old(self).rate_of(currency@) > 0,
            released_for(stablecoin_amount, old(self).rate_of(currency@)) > 0,
            old(self).user_view(caller@).contains_key(currency@),
            ({
                let d = old(self).claim_deposits(caller@, currency@, current_time)[caller@][currency@];
                &&& d.stablecoin_minted >= stablecoin_amount
                &&& d.usdc_locked >= released_for(stablecoin_amount, old(self).rate_of(currency@))
            }),
        ensures
            r == released_for(stablecoin_amount, old(self).rate_of(currency@)),
            final(self).wf(),
            ({
                let dv = old(self).claim_deposits(caller@, currency@, current_time);
                let d = dv[caller@][currency@];
                final(self).deposits_view() == dv.insert(
                    caller@,
                    dv[caller@].insert(
                        currency@,
                        VaultDeposit {
                            stablecoin_minted: (d.stablecoin_minted - stablecoin_amount) as u64,
                            usdc_locked: (d.usdc_locked - r) as u64,
                            ..d
                        },
                    ),
                )
            }),
            ({
                let cv = old(self).claim_currencies(caller@, currency@, current_time);
                let i = cv[currency@];
                final(self).currency_views() == cv.insert(
                    currency@,
                    InfoView {
                        total_usdc_backing: sat_sub(i.total_usdc_backing, r),
                        total_stablecoin_supply: sat_sub(i.total_stablecoin_supply, stablecoin_amount),
                        ..i
                    },
                )
            }),
            ({
                let y = old(self).pending(caller@, currency@, current_time);
                &&& final(self).total_usdc_locked == sat_sub(sat_add(old(self).total_usdc_locked, y.0), r)
                &&& final(self).total_yield_distributed == sat_add(old(self).total_yield_distributed, y.0)
            }),
            *final(self) == (YieldVault {
                deposits: final(self).deposits,
                currencies: final(self).currencies,
                total_usdc_locked: final(self).total_usdc_locked,
                total_yield_distributed: final(self).total_yield_distributed,
                ..*old(self)
            }),
    {
        self.claim_yield(caller, currency, current_time);
        let ghost mid = *self;
        let key = String::from_str(currency);
        proof {
            assert(old(self).deposits@.contains_key(caller@));
            assert(old(self).currency_views().contains_key(currency@));
            assert(mid.currency_views().contains_key(currency@));
            assert(mid.currencies@.contains_key(currency@));
            assert(mid.currency_views()[currency@] == mid.currencies@[currency@]@);
            assert(old(self).currency_views()[currency@] == old(self).currencies@[currency@]@);
            assert(mid.rate_of(currency@) == old(self).rate_of(currency@));
            assert(mid.deposits_view().contains_key(caller@));
            assert(mid.deposits@.contains_key(caller@));
            assert(mid.user_view(caller@) == mid.deposits_view()[caller@]);
        }
        let current_rate = self.rate_for(&key);
        let usdc_released = mul_div(stablecoin_amount, 1_000_000, current_rate);
        let ui = match self.deposits.find(&caller) {
            Some(i) => i,
            None => {
                assert(false);
                return 0;
            },
        };
        let ghost deps0 = self.deposits;
        proof {
            deps0.lemma_entry(ui as int);
        }
        {
            let inner = self.deposits.value_mut_at(ui);
            let ghost inner0 = *inner;
            let ci = match inner.find(&key) {
                Some(i) => i,
                None => {
                    assert(false);
                    return 0;
                },
            };
            proof {
                inner0.lemma_entry(ci as int);
            }
            let dep = inner.value_mut_at(ci);
            dep.stablecoin_minted = dep.stablecoin_minted - stablecoin_amount;
            dep.usdc_locked = dep.usdc_locked - usdc_released;
            proof {
                KeyMap::lemma_set_at(inner0, *inner, ci as int);
            }
        }
        proof {
            KeyMap::lemma_set_at(deps0, self.deposits, ui as int);
        }
        match self.currencies.find(&key) {
            Some(k) => {
                let ghost cur0 = self.currencies;
                proof {
                    cur0.lemma_entry(k as int);
                }
                let info = self.currencies.value_mut_at(k);
                info.total_usdc_backing = info.total_usdc_backing.saturating_sub(usdc_released);
                info.total_stablecoin_supply = info.total_stablecoin_supply.saturating_sub(
                    stablecoin_amount,
                );
                proof {
                    KeyMap::lemma_set_at(cur0, self.currencies, k as int);
                }
            },
            None => {},
        }
        self.total_usdc_locked = self.total_usdc_locked.saturating_sub(usdc_released);
        proof {
            let dv = old(self).claim_deposits(caller@, currency@, current_time);
            let d = dv[caller@][currency@];
            assert(self.deposits_view() =~= dv.insert(
                caller@,
                dv[caller@].insert(
                    currency@,
                    VaultDeposit {
                        stablecoin_minted: (d.stablecoin_minted - stablecoin_amount) as u64,
                        usdc_locked: (d.usdc_locked - usdc_released) as u64,
                        ..d
                    },
                ),
            ));
            let cv = old(self).claim_currencies(caller@, currency@, current_time);
            let i = cv[currency@];
            assert(self.currency_views() =~= cv.insert(
                currency@,
                InfoView {
                    total_usdc_backing: sat_sub(i.total_usdc_backing, usdc_released),
                    total_stablecoin_supply: sat_sub(i.total_stablecoin_supply, stablecoin_amount),
                    ..i
                },
            ));
            assert forall|a: Seq<u8>| #[trigger] self.deposits@.contains_key(a) implies self.deposits@[a].wf()
                && self.deposits@[a].sorted() by {
                if a != caller@ {
                    assert(mid.deposits@.contains_key(a));
                }
            }
            assert forall|c: Seq<char>| #[trigger] self.currencies@.contains_key(c) implies self.currencies@[c].rate_history@.len()
                <= MAX_RATE_HISTORY by {
                assert(mid.currencies@.contains_key(c));
            }
        }
        usdc_released
    }
}

/// The highest rate of a run of snapshots, zero for none.
pub open spec fn high_of(s: Seq<RateSnapshot>) -> u64
    decreases s.len(),
{
    if s.len() == 0 {
        0
    } else if s.last().rate > high_of(s.drop_last()) {
        s.last().rate
    } else {
        high_of(s.drop_last())
    }
}

/// The lowest rate of a run of snapshots, `u64::MAX` for none.
pub open spec fn low_of(s: Seq<RateSnapshot>) -> u64
    decreases s.len(),
{
    if s.len() == 0 {
        u64::MAX
    } else if s.last().rate < low_of(s.drop_last()) {
        s.last().rate
    } else {
        low_of(s.drop_last())
    }
}

/// The sum of the rates of a run of snapshots.
pub open spec fn rate_sum(s: Seq<RateSnapshot>) -> int
    decreases s.len(),
{
    if s.len() == 0 {
        0
    } else {
        rate_sum(s.drop_last()) + s.last().rate
    }
}

/// The high, low, average and oldest rate of the newest `count` snapshots
/// (all of them where there are fewer); zeros where there are none.
pub open spec fn window_stats_of(h: Seq<RateSnapshot>, count: int) -> (u64, u64, u64, u64) {
    let w = h.take(if count < h.len() { count } else { h.len() as int });
    if w.len() == 0 {
        (0, 0, 0, 0)
    } else {
        (high_of(w), low_of(w), (rate_sum(w) / (w.len() as int)) as u64, w.last().rate)
    }
}

/// The change from `old` to `current` in basis points of `old`, rounded
/// toward zero: positive when the rate went up. Zero where `old` is zero.
pub open spec fn change_bps_of(current: u64, old: u64) -> i64 {
    if old == 0 {
        0
    } else {
        let d = current as int - old as int;
        (if d >= 0 {
            d * 10_000 / (old as int)
        } else {
            -((-d) * 10_000 / (old as int))
        }) as i64
    }
}

/// The statistics of a currency: over the last 24, 168 and 720 snapshots,
/// the changes measured from the oldest of each window.
pub open spec fn stats_of(i: InfoView) -> RateStats {
    let h = i.rate_history;
    let cur = i.current_rate;
    if h.len() == 0 {
        RateStats {
            current: cur,
            high_24h: cur,
            low_24h: cur,
            avg_24h: cur,
            high_7d: cur,
            low_7d: cur,
            avg_7d: cur,
            high_30d: cur,
            low_30d: cur,
            avg_30d: cur,
            change_24h_bps: 0,
            change_7d_bps: 0,
            change_30d_bps: 0,
        }
    } else {
        let d = window_stats_of(h, 24);
        let w = window_stats_of(h, 168);
        let m = window_stats_of(h, 720);
        RateStats {
            current: cur,
            high_24h: d.0,
            low_24h: d.1,
            avg_24h: d.2,
            high_7d: w.0,
            low_7d: w.1,
            avg_7d: w.2,
            high_30d: m.0,
            low_30d: m.1,
            avg_30d: m.2,
            change_24h_bps: change_bps_of(cur, d.3),
            change_7d_bps: change_bps_of(cur, w.3),
            change_30d_bps: change_bps_of(cur, m.3),
        }
    }
}

/// The supply of a currency valued in USDC at its current rate.
pub open spec fn supply_value(i: CurrencyInfo) -> u64 {
    if i.current_rate > 0 {
        ((i.total_stablecoin_supply as int * 1_000_000) / (i.current_rate as int)) as u64
    } else {
        0
    }
}

/// The reserve report of one currency.
pub open spec fn reserve_proof(c: String, i: CurrencyInfo) -> CurrencyReserveProof {
    let sv = supply_value(i);
    CurrencyReserveProof {
        currency: c,
        stablecoin_supply: i.total_stablecoin_supply,
        usdc_backing: i.total_usdc_backing,
        current_rate: i.current_rate,
        supply_value_in_usdc: sv,
        is_backed: i.total_usdc_backing >= sv,
        collateral_ratio_bps: if sv > 0 {
            ((i.total_usdc_backing as int * 10_000) / (sv as int)) as u64
        } else if i.total_usdc_backing > 0 {
            u64::MAX
        } else {
            10_000
        },
    }
}

/// The supply value of all currencies of a run of entries.
pub open spec fn total_supply_value(s: Seq<(String, CurrencyInfo)>) -> int
    decreases s.len(),
{
    if s.len() == 0 {
        0
    } else {
        total_supply_value(s.drop_last()) + supply_value(s.last().1)
    }
}

/// How far `locked` exceeds a supply value of `total`, in basis points.
pub open spec fn overcollateral_of(locked: u64, total: int) -> u64 {
    if total > 0 {
        let ratio = (locked as int * 10_000) / total;
        if ratio > 10_000 {
            (ratio - 10_000) as u64
        } else {
            0
        }
    } else {
        0
    }
}

impl YieldVault {
    /// Records the oracle's `new_rate` for `currency` at `timestamp`.
    pub fn update_rate(&mut self, caller: [u8; 32], currency: &str, new_rate: u64, timestamp: u64)
        requires
            old(self).wf(),
            old(self).oracle_updaters@.contains(caller) || caller == old(self).admin,
            new_rate > 0,
            ({
                let i = old(self).info_or_fresh(currency@, new_rate, timestamp);
                i.rate_history.len() > 0 ==> i.last_rate_update + SNAPSHOT_INTERVAL <= u64::MAX
            }),
        ensures
            final(self).wf(),
            final(self).currency_views() == old(self).currency_views().insert(
                currency@,
                rate_updated(old(self).info_or_fresh(currency@, new_rate, timestamp), new_rate, timestamp),
            ),
            *final(self) == (YieldVault { currencies: final(self).currencies, ..*old(self) }),
    {
        let key = String::from_str(currency);
        if !self.currencies.contains_key(&key) {
            let fresh = CurrencyInfo {
                current_rate: new_rate,
                last_rate_update: timestamp,
                rate_history: Vec::new(),
                total_usdc_backing: 0,
                total_stablecoin_supply: 0,
                total_yield_distributed_usdc: 0,
            };
            self.currencies.insert_sorted(key.clone(), fresh);
            proof {
                assert(self.currency_views() =~= old(self).currency_views().insert(
                    currency@,
                    fresh_info(new_rate, timestamp),
                ));
            }
        }
        let ghost mid = *self;
        proof {
            assert(mid.currency_views().contains_key(currency@));
            assert(mid.currency_views()[currency@] == old(self).info_or_fresh(currency@, new_rate, timestamp));
        }
        let k = match self.currencies.find(&key) {
            Some(k) => k,
            None => {
                assert(false);
                return ;
            },
        };
        let ghost cur0 = self.currencies;
        proof {
            cur0.lemma_entry(k as int);
        }
        {
            let info = self.currencies.value_mut_at(k);
            info.current_rate = new_rate;
            let should_snapshot = info.rate_history.len() == 0 || timestamp >= info.last_rate_update
                + SNAPSHOT_INTERVAL;
            if should_snapshot {
                info.rate_history.insert(0, RateSnapshot { rate: new_rate, timestamp });
                if info.rate_history.len() > MAX_RATE_HISTORY {
                    info.rate_history.truncate(MAX_RATE_HISTORY);
                }
            }
            info.last_rate_update = timestamp;
        }
        proof {
            KeyMap::lemma_set_at(cur0, self.currencies, k as int);
            let i0 = old(self).info_or_fresh(currency@, new_rate, timestamp);
            let h = seq![RateSnapshot { rate: new_rate, timestamp }] + i0.rate_history;
            assert(i0.rate_history.insert(0, RateSnapshot { rate: new_rate, timestamp }) =~= h);
            assert(self.currency_views() =~= old(self).currency_views().insert(
                currency@,
                rate_updated(i0, new_rate, timestamp),
            ));
            assert forall|c: Seq<char>| #[trigger] self.currencies@.contains_key(c) implies self.currencies@[c].rate_history@.len()
                <= MAX_RATE_HISTORY by {
                if c != currency@ {
                    assert(mid.currencies@.contains_key(c));
                    assert(mid.currency_views()[c] == old(self).currency_views()[c]);
                }
            }
        }
    }

    /// Lets `address` report rates.
    pub fn add_oracle_updater(&mut self, caller: [u8; 32], address: [u8; 32])
        requires
            caller == old(self).admin,
        ensures
            old(self).oracle_updaters@.contains(address) ==> final(self).oracle_updaters@ == old(
                self,
            ).oracle_updaters@,
            !old(self).oracle_updaters@.contains(address) ==> final(self).oracle_updaters@ == old(
                self,
            ).oracle_updaters@.push(address),
            *final(self) == (YieldVault { oracle_updaters: final(self).oracle_updaters, ..*old(self) }),
    {
        push_addr_once(&mut self.oracle_updaters, address);
    }

    /// Stops `address` from reporting rates.
    pub fn remove_oracle_updater(&mut self, caller: [u8; 32], address: [u8; 32])
        requires
            caller == old(self).admin,
        ensures
            final(self).oracle_updaters@ == old(self).oracle_updaters@.filter(
                |x: [u8; 32]| x != address,
            ),
            *final(self) == (YieldVault { oracle_updaters: final(self).oracle_updaters, ..*old(self) }),
    {
        remove_addr(&mut self.oracle_updaters, &address);
    }

    /// What the vault tracks for `currency`.
    pub fn get_currency_info(&self, currency: &str) -> (r: Option<&CurrencyInfo>)
        requires
            self.wf(),
        ensures
            match r {
                Some(i) => self.currencies@.contains_key(currency@) && *i == self.currencies@[currency@],
                None => !self.currencies@.contains_key(currency@),
            },
    {
        let key = String::from_str(currency);
        self.currencies.get(&key)
    }

    /// The newest `hours` snapshots of `currency` (all of them where there
    /// are fewer), newest first.
    pub fn get_rate_history(&self, currency: &str, hours: usize) -> (r: Vec<RateSnapshot>)
        requires
            self.wf(),
        ensures
            self.currencies@.contains_key(currency@) ==> ({
                let h = self.currencies@[currency@].rate_history@;
                r@ == h.take(if hours < h.len() { hours as int } else { h.len() as int })
            }),
            !self.currencies@.contains_key(currency@) ==> r@ == Seq::<RateSnapshot>::empty(),
    {
        let key = String::from_str(currency);
        let info = match self.currencies.get(&key) {
            Some(i) => i,
            None => return Vec::new(),
        };
        let count = if hours < info.rate_history.len() {
            hours
        } else {
            info.rate_history.len()
        };
        copy_snapshots(info.rate_history.as_slice(), count)
    }

    /// The rate statistics of `currency`.
    pub fn get_rate_stats(&self, currency: &str) -> (r: Option<RateStats>)
        requires
            self.wf(),
        ensures
            self.currencies@.contains_key(currency@) ==> r == Some(
                stats_of(self.currencies@[currency@]@),
            ),
            !self.currencies@.contains_key(currency@) ==> r is None,
    {
        let key = String::from_str(currency);
        let info = match self.currencies.get(&key) {
            Some(i) => i,
            None => return None,
        };
        let current = info.current_rate;
        let history = info.rate_history.as_slice();
        if history.len() == 0 {
            return Some(
                RateStats {
                    current,
                    high_24h: current,
                    low_24h: current,
                    avg_24h: current,
                    high_7d: current,
                    low_7d: current,
                    avg_7d: current,
                    high_30d: current,
                    low_30d: current,
                    avg_30d: current,
                    change_24h_bps: 0,
                    change_7d_bps: 0,
                    change_30d_bps: 0,
                },
            );
        }
        let (h24, l24, a24, oldest_24) = Self::window_stats(history, 24);
        let (h7d, l7d, a7d, oldest_7d) = Self::window_stats(history, 168);
        let (h30d, l30d, a30d, oldest_30d) = Self::window_stats(history, 720);
        let change_24h_bps = Self::change_bps(current, oldest_24);
        let change_7d_bps = Self::change_bps(current, oldest_7d);
        let change_30d_bps = Self::change_bps(current, oldest_30d);
        Some(
            RateStats {
                current,
                high_24h: h24,
                low_24h: l24,
                avg_24h: a24,
                high_7d: h7d,
                low_7d: l7d,
                avg_7d: a7d,
                high_30d: h30d,
                low_30d: l30d,
                avg_30d: a30d,
                change_24h_bps,
                change_7d_bps,
                change_30d_bps,
            },
        )
    }

    /// The high, low, average and oldest rate of the first `count` snapshots.
    fn window_stats(history: &[RateSnapshot], count: usize) -> (r: (u64, u64, u64, u64))
        ensures
            r == window_stats_of(history@, count as int),
    {
        let n = if count < history.len() {
            count
        } else {
            history.len()
        };
        let ghost w = history@.take(n as int);
        if n == 0 {
            return (0, 0, 0, 0);
        }
        let mut high: u64 = 0;
        let mut low: u64 = u64::MAX;
        let mut sum: u128 = 0;
        let mut i: usize = 0;
        while i < n
            invariant
                i <= n <= history@.len(),
                w == history@.take(n as int),
                high == high_of(w.take(i as int)),
                low == low_of(w.take(i as int)),
                sum == rate_sum(w.take(i as int)),
                sum <= i as int * u64::MAX as int,
            decreases n - i,
        {
            let rate = history[i].rate;
            proof {
                assert(w.take(i + 1).drop_last() =~= w.take(i as int));
                assert(w.take(i + 1).last() == history@[i as int]);
                assert((i + 1) as int * u64::MAX as int <= u128::MAX) by (nonlinear_arith)
                    requires
                        i < n,
                        n <= usize::MAX,
                ;
            }
            if rate > high {
                high = rate;
            }
            if rate < low {
                low = rate;
            }
            sum = sum + rate as u128;
            i += 1;
        }
        proof {
            assert(w.take(n as int) =~= w);
        }
        let avg = (sum / n as u128) as u64;
        let oldest = history[n - 1].rate;
        (high, low, avg, oldest)
    }

    /// The change from `old` to `current` in basis points of `old`.
    fn change_bps(current: u64, old: u64) -> (r: i64)
        ensures
            r == change_bps_of(current, old),
    {
        if old == 0 {
            return 0;
        }
        if current >= old {
            proof {
                lemma_mul_u64_fits((current - old) as u64, 10_000);
            }
            let q: u128 = (current - old) as u128 * 10_000u128 / old as u128;
            (q as i128) as i64
        } else {
            proof {
                lemma_mul_u64_fits((old - current) as u64, 10_000);
            }
            let q: u128 = (old - current) as u128 * 10_000u128 / old as u128;
            (-(q as i128)) as i64
        }
    }

    /// The reserves behind each currency, in ascending currency order, and
    /// behind the vault as a whole.
    pub fn proof_of_reserves(&self, timestamp: u64) -> (r: ProofOfReserves)
        requires
            self.wf(),
        ensures
            r.total_usdc_in_vault == self.total_usdc_locked,
            r.per_currency@.len() == self.currencies.entries().len(),
            forall|i: int|
                0 <= i < r.per_currency@.len() ==> #[trigger] r.per_currency@[i] == reserve_proof(
                    self.currencies.entries()[i].0,
                    self.currencies.entries()[i].1,
                ),
            forall|i: int, j: int|
                0 <= i < j < r.per_currency@.len() ==> String::key_lt(
                    #[trigger] r.per_currency@[i].currency@,
                    #[trigger] r.per_currency@[j].currency@,
                ),
            r.is_fully_backed == (self.total_usdc_locked >= total_supply_value(
                self.currencies.entries(),
            )),
            r.overcollateral_bps == overcollateral_of(
                self.total_usdc_locked,
                total_supply_value(self.currencies.entries()),
            ),
            r.timestamp == timestamp,
    {
        let n = self.currencies.len();
        let ghost es = self.currencies.entries();
        let mut per_currency: Vec<CurrencyReserveProof> = Vec::new();
        let mut total: u128 = 0;
        let mut i: usize = 0;
        while i < n
            invariant
                i <= n,
                n == es.len(),
                es == self.currencies.entries(),
                per_currency@.len() == i,
                forall|j: int|
                    0 <= j < i ==> #[trigger] per_currency@[j] == reserve_proof(es[j].0, es[j].1),
                total == total_supply_value(es.take(i as int)),
                total <= i as int * u64::MAX as int,
            decreases n - i,
        {
            let c = self.currencies.key_at(i);
            let info = self.currencies.value_at(i);
            let supply_value_in_usdc = if info.current_rate > 0 {
                mul_div(info.total_stablecoin_supply, 1_000_000, info.current_rate)
            } else {
                0
            };
            let is_backed = info.total_usdc_backing >= supply_value_in_usdc;
            let collateral_ratio_bps = if supply_value_in_usdc > 0 {
                mul_div(info.total_usdc_backing, BPS_DENOMINATOR, supply_value_in_usdc)
            } else if info.total_usdc_backing > 0 {
                u64::MAX
            } else {
                BPS_DENOMINATOR
            };
            proof {
                assert(es.take(i + 1).drop_last() =~= es.take(i as int));
                assert(es.take(i + 1).last() == es[i as int]);
                assert((i + 1) as int * u64::MAX as int <= u128::MAX) by (nonlinear_arith)
                    requires
                        i < n,
                        n <= usize::MAX,
                ;
            }
            total = total + supply_value_in_usdc as u128;
            per_currency.push(
                CurrencyReserveProof {
                    currency: c.clone(),
                    stablecoin_supply: info.total_stablecoin_supply,
                    usdc_backing: info.total_usdc_backing,
                    current_rate: info.current_rate,
                    supply_value_in_usdc,
                    is_backed,
                    collateral_ratio_bps,
                },
            );
            i += 1;
        }
        proof {
            assert(es.take(n as int) =~= es);
            assert forall|a: int, b: int| 0 <= a < b < per_currency@.len() implies String::key_lt(
                #[trigger] per_currency@[a].currency@,
                #[trigger] per_currency@[b].currency@,
            ) by {
                assert(per_currency@[a] == reserve_proof(es[a].0, es[a].1));
                assert(per_currency@[b] == reserve_proof(es[b].0, es[b].1));
                assert(self.currencies.key_seq()[a] == es[a].0@);
                assert(self.currencies.key_seq()[b] == es[b].0@);
            }
        }
        let is_fully_backed = self.total_usdc_locked as u128 >= total;
        let overcollateral_bps = if total > 0 {
            proof {
                lemma_mul_u64_fits(self.total_usdc_locked, 10_000);
            }
            let ratio = self.total_usdc_locked as u128 * BPS_DENOMINATOR as u128 / total;
            if ratio > BPS_DENOMINATOR as u128 {
                (ratio - BPS_DENOMINATOR as u128) as u64
            } else {
                0
            }
        } else {
            0
        };
        ProofOfReserves {
            total_usdc_in_vault: self.total_usdc_locked,
            per_currency,
            is_fully_backed,
            overcollateral_bps,
            timestamp,
        }
    }

    /// All deposits of `address`, in ascending currency order.
    pub fn list_all_deposits(&self, address: &[u8; 32]) -> (r: Vec<VaultDeposit>)
        requires
            self.wf(),
        ensures
            self.deposits@.contains_key(address@) ==> ({
                let es = self.deposits@[address@].entries();
                &&& r@.len() == es.len()
                &&& forall|i: int| 0 <= i < es.len() ==> #[trigger] r@[i] == es[i].1
            }),
            !self.deposits@.contains_key(address@) ==> r@ == Seq::<VaultDeposit>::empty(),
    {
        match self.deposits.get(address) {
            Some(m) => {
                let n = m.len();
                let mut r: Vec<VaultDeposit> = Vec::new();
                let mut i: usize = 0;
                while i < n
                    invariant
                        i <= n,
                        n == m.entries().len(),
                        r@.len() == i,
                        forall|j: int| 0 <= j < i ==> #[trigger] r@[j] == m.entries()[j].1,
                    decreases n - i,
                {
                    r.push(m.value_at(i).duplicate());
                    i += 1;
                }
                r
            },
            None => Vec::new(),
        }
    }

    pub fn pause(&mut self, caller: [u8; 32])
        requires
            caller == old(self).admin,
        ensures
            *final(self) == (YieldVault { paused: true, ..*old(self) }),
    {
        self.paused = true;
    }

    pub fn unpause(&mut self, caller: [u8; 32])
        requires
            caller == old(self).admin,
        ensures
            *final(self) == (YieldVault { paused: false, ..*old(self) }),
    {
        self.paused = false;
    }
}

/// Withdrawing at the rate of the deposit never releases more USDC than was
/// deposited: the stablecoin minted for `usdc` at `rate`, burned at `rate`,
/// releases at most `usdc`.
pub proof fn law_round_trip_no_profit(usdc: u64, rate: u64)
    requires
        rate > 0,
        (usdc as int * rate as int) / 1_000_000 <= u64::MAX,
    ensures
        released_for(minted_for(usdc, rate), rate) <= usdc,
{
    let m = (usdc as int * rate as int) / 1_000_000;
    assert(m >= 0) by (nonlinear_arith)
        requires
            m == (usdc as int * rate as int) / 1_000_000,
    ;
    assert(minted_for(usdc, rate) == m);
    assert(m * 1_000_000 <= usdc as int * rate as int) by (nonlinear_arith)
        requires
            m == (usdc as int * rate as int) / 1_000_000,
    ;
    assert((m * 1_000_000) / (rate as int) <= usdc as int) by (nonlinear_arith)
        requires
            m * 1_000_000 <= usdc as int * rate as int,
            rate > 0,
            m >= 0,
    ;
}

/// Yield is paid once: once a deposit's yield is claimed at `now`, nothing
/// more is pending on it at `now`.
pub proof fn law_claim_pays_once(before: YieldVault, after: YieldVault, a: Seq<u8>, c: Seq<char>, now: u64)
    requires
        before.wf(),
        after.deposits_view() == before.claim_deposits(a, c, now),
        after.currency_views() == before.claim_currencies(a, c, now),
        after.yield_rate_bps == before.yield_rate_bps,
    ensures
        after.pending(a, c, now).0 == 0,
{
    let y = before.pending(a, c, now);
    if before.user_view(a).contains_key(c) {
        assert(before.deposits@.contains_key(a));
        assert(after.deposits_view().contains_key(a));
        assert(after.deposits@.contains_key(a));
        assert(after.user_view(a) == after.deposits_view()[a]);
        assert(before.user_view(a) == before.deposits_view()[a]);
    } else {
        if after.deposits@.contains_key(a) {
            assert(after.deposits_view().contains_key(a));
            assert(after.user_view(a) == after.deposits_view()[a]);
            assert(before.deposits_view().contains_key(a));
            assert(before.user_view(a) == before.deposits_view()[a]);
        }
    }
}

/// The lowest rate of a run is at most each rate, the highest at least each,
/// and the sum lies between the run's length times each of them.
proof fn lemma_low_sum_high(s: Seq<RateSnapshot>)
    requires
        s.len() > 0,
    ensures
        low_of(s) as int * s.len() <= rate_sum(s) <= high_of(s) as int * s.len(),
        low_of(s) <= high_of(s),
    decreases s.len(),
{
    let t = s.drop_last();
    let r = s.last().rate;
    if t.len() > 0 {
        lemma_low_sum_high(t);
        let n = t.len() as int;
        let lo = low_of(s) as int;
        let hi = high_of(s) as int;
        assert(lo <= low_of(t) && lo <= r);
        assert(hi >= high_of(t) && hi >= r);
        assert(lo * n <= low_of(t) as int * n) by (nonlinear_arith)
            requires
                lo <= low_of(t),
                n >= 0,
        ;
        assert(high_of(t) as int * n <= hi * n) by (nonlinear_arith)
            requires
                high_of(t) <= hi,
                n >= 0,
        ;
        assert(lo * (n + 1) == lo * n + lo) by (nonlinear_arith);
        assert(hi * (n + 1) == hi * n + hi) by (nonlinear_arith);
        assert(rate_sum(s) == rate_sum(t) + r);
        assert(s.len() == n + 1);
    } else {
        assert(rate_sum(t) == 0);
        assert(low_of(t) == u64::MAX);
        assert(high_of(t) == 0);
        assert(rate_sum(s) == r);
        assert(low_of(s) == r);
        assert(high_of(s) == r);
        assert(s.len() == 1);
    }
}

/// In each window of the statistics the low is at most the average and
/// the average at most the high.
pub proof fn law_window_low_avg_high(h: Seq<RateSnapshot>, count: int)
    requires
        h.len() > 0,
        count > 0,
    ensures
        window_stats_of(h, count).1 <= window_stats_of(h, count).2 <= window_stats_of(h, count).0,
{
    let w = h.take(if count < h.len() { count } else { h.len() as int });
    lemma_low_sum_high(w);
    let n = w.len() as int;
    let lo = low_of(w) as int;
    let hi = high_of(w) as int;
    let sum = rate_sum(w);
    assert(lo <= sum / n <= hi) by (nonlinear_arith)
        requires
            n > 0,
            lo * n <= sum,
            sum <= hi * n,
    ;
}

/// The rate statistics of a currency are ordered: over the last day, week
/// and month the low is at most the average and the average at most the high.
pub proof fn law_rate_stats_ordered(i: InfoView)
    ensures
        stats_of(i).low_24h <= stats_of(i).avg_24h <= stats_of(i).high_24h,
        stats_of(i).low_7d <= stats_of(i).avg_7d <= stats_of(i).high_7d,
        stats_of(i).low_30d <= stats_of(i).avg_30d <= stats_of(i).high_30d,
{
    if i.rate_history.len() > 0 {
        law_window_low_avg_high(i.rate_history, 24);
        law_window_low_avg_high(i.rate_history, 168);
        law_window_low_avg_high(i.rate_history, 720);
    }
}

/// A rate change is reported in basis points of the old rate, rounded
/// toward zero, and its sign follows the move: a fall is never reported as a
/// rise, nor a rise as a fall.
pub proof fn law_change_follows_the_move(current: u64, old: u64)
    requires
        old > 0,
        current >= old ==> (current - old) * 10_000 / (old as int) <= i64::MAX,
    ensures
        current >= old ==> {
            &&& change_bps_of(current, old) >= 0
            &&& change_bps_of(current, old) * old <= (current - old) * 10_000
            &&& (current - old) * 10_000 < (change_bps_of(current, old) + 1) * old
        },
        current < old ==> {
            &&& change_bps_of(current, old) <= 0
            &&& -change_bps_of(current, old) * old <= (old - current) * 10_000
            &&& (old - current) * 10_000 < (-change_bps_of(current, old) + 1) * old
        },
{
    let o = old as int;
    if current >= old {
        let n = (current - old) * 10_000;
        let q = n / o;
        assert(q * o <= n && n < (q + 1) * o && q >= 0) by (nonlinear_arith)
            requires
                o > 0,
                n >= 0,
                q == n / o,
        ;
        assert(change_bps_of(current, old) == q);
    } else {
        let n = (old - current) * 10_000;
        let q = n / o;
        assert(n <= o * 10_000) by (nonlinear_arith)
            requires
                n == (old - current) * 10_000,
                0 <= old - current <= o,
        ;
        assert(q * o <= n && n < (q + 1) * o && q >= 0) by (nonlinear_arith)
            requires
                o > 0,
                n >= 0,
                q == n / o,
        ;
        assert(q <= 10_000) by (nonlinear_arith)
            requires
                o > 0,
                q * o <= n,
                n <= o * 10_000,
        ;
        assert(change_bps_of(current, old) == -q);
    }
}

} // verus!
