//! DRC-101 agent wallet: an autonomous wallet whose transfers obey spending rules.
use vstd::prelude::*;
use crate::addr::{addr_eq, addr_in, push_addr_once, remove_addr};

verus! {

/// Limits on what the wallet may spend.
#[derive(Clone, Copy, Debug)]
pub struct SpendingLimits {
    pub max_per_transaction: u64,
    pub max_per_day: u64,
    pub max_per_month: u64,
    pub max_transactions_per_day: u32,
    pub min_interval_ms: u64,
}

impl Default for SpendingLimits {
    /// No limit at all.
    fn default() -> (r: Self)
        ensures
            r.max_per_transaction == u64::MAX,
            r.max_per_day == u64::MAX,
            r.max_per_month == u64::MAX,
            r.max_transactions_per_day == u32::MAX,
            r.min_interval_ms == 0,
    {
        SpendingLimits {
            max_per_transaction: u64::MAX,
            max_per_day: u64::MAX,
            max_per_month: u64::MAX,
            max_transactions_per_day: u32::MAX,
            min_interval_ms: 0,
        }
    }
}

/// Who controls the wallet and how it may spend.
#[derive(Clone, Debug)]
pub struct WalletRules {
    pub owner: [u8; 32],
    pub guardian: Option<[u8; 32]>,
    pub limits: SpendingLimits,
    pub approved_counterparties: Vec<[u8; 32]>,
    pub approved_interfaces: Vec<[u8; 32]>,
    pub require_witness: bool,
    pub bound_device: Option<[u8; 32]>,
    pub auto_sweep_threshold: Option<u64>,
}

/// What the wallet has spent, in total and in the current day and month.
#[derive(Clone, Copy, Debug)]
pub struct SpendingStats {
    pub total_spent: u64,
    pub spent_today: u64,
    pub spent_this_month: u64,
    pub transactions_today: u32,
    pub last_transaction_ms: u64,
    pub current_day: u64,
    pub current_month: u64,
}

/// The statistics once the counters of a past day or month are reset.
pub open spec fn rolled_over(s: SpendingStats, day: u64, month: u64) -> SpendingStats {
    let after_day = if day != s.current_day {
        SpendingStats { spent_today: 0, transactions_today: 0, current_day: day, ..s }
    } else {
        s
    };
    if month != after_day.current_month {
        SpendingStats { spent_this_month: 0, current_month: month, ..after_day }
    } else {
        after_day
    }
}

/// `a - b`, or zero where `b` is larger.
pub open spec fn saturating_sub(a: u64, b: u64) -> u64 {
    if a >= b {
        (a - b) as u64
    } else {
        0
    }
}

impl SpendingStats {
    /// Nothing spent yet.
    pub fn new() -> (r: Self)
        ensures
            r == (SpendingStats {
                total_spent: 0,
                spent_today: 0,
                spent_this_month: 0,
                transactions_today: 0,
                last_transaction_ms: 0,
                current_day: 0,
                current_month: 0,
            }),
    {
        SpendingStats {
            total_spent: 0,
            spent_today: 0,
            spent_this_month: 0,
            transactions_today: 0,
            last_transaction_ms: 0,
            current_day: 0,
            current_month: 0,
        }
    }

    /// Resets the daily and monthly counters when the day or month changed.
    pub fn roll_over(&mut self, day: u64, month: u64)
        ensures
            *final(self) == rolled_over(*old(self), day, month),
    {
        if day != self.current_day {
            self.spent_today = 0;
            self.transactions_today = 0;
            self.current_day = day;
        }
        if month != self.current_month {
            self.spent_this_month = 0;
            self.current_month = month;
        }
    }
}

/// One executed transfer.
#[derive(Clone, Debug)]
pub struct TransactionRecord {
    pub to: [u8; 32],
    pub amount: u64,
    pub timestamp_ms: u64,
    pub memo: String,
}

/// The first rule that refuses a transfer, in the order the wallet checks them.
#[derive(Clone, Copy, Debug, PartialEq, Eq, Structural)]
pub enum TransferRefusal {
    Frozen,
    NotAuthorised,
    CounterpartyNotApproved,
    WitnessRequired,
    WrongWitness,
    ExceedsPerTransaction,
    ExceedsDaily,
    ExceedsMonthly,
    ExceedsTransactionCount,
    IntervalNotMet,
    InsufficientBalance,
    TotalOverflow,
}

/// The whole state of an agent wallet.
#[derive(Clone, Debug)]
pub struct AgentWalletState {
    pub rules: WalletRules,
    pub stats: SpendingStats,
    pub transaction_log: Vec<TransactionRecord>,
    pub frozen: bool,
    pub balance: u64,
}

impl AgentWalletState {
    /// Whether the rules admit a transfer of `amount` to `to`, requested by
    /// `caller` at `timestamp_ms` in the given day and month.
    pub open spec fn transfer_allowed(
        &self,
        caller: [u8; 32],
        to: [u8; 32],
        amount: u64,
        timestamp_ms: u64,
        day: u64,
        month: u64,
        witness: Option<[u8; 32]>,
    ) -> bool {
        let st = rolled_over(self.stats, day, month);
        let limits = self.rules.limits;
        &&& !self.frozen
        &&& (caller == self.rules.owner || self.rules.approved_interfaces@.contains(caller))
        &&& (self.rules.approved_counterparties@.len() > 0
            ==> self.rules.approved_counterparties@.contains(to))
        &&& (self.rules.require_witness ==> witness is Some)
        &&& (self.rules.bound_device is Some ==> witness == self.rules.bound_device)
        &&& amount <= limits.max_per_transaction
        &&& st.spent_today + amount <= limits.max_per_day
        &&& st.spent_this_month + amount <= limits.max_per_month
        &&& st.transactions_today < limits.max_transactions_per_day
        &&& (st.last_transaction_ms > 0 ==> saturating_sub(timestamp_ms, st.last_transaction_ms)
            >= limits.min_interval_ms)
        &&& self.balance >= amount
        &&& st.total_spent + amount <= u64::MAX
    }

    /// The first rule, in the wallet's order, that refuses a transfer of
    /// `amount` to `to` by `caller` at `timestamp_ms`; none where all admit it.
    pub open spec fn refusal(
        &self,
        caller: [u8; 32],
        to: [u8; 32],
        amount: u64,
        timestamp_ms: u64,
        day: u64,
        month: u64,
        witness: Option<[u8; 32]>,
    ) -> Option<TransferRefusal> {
        let st = rolled_over(self.stats, day, month);
        let limits = self.rules.limits;
        if self.frozen {
            Some(TransferRefusal::Frozen)
        } else if !(caller == self.rules.owner || self.rules.approved_interfaces@.contains(caller)) {
            Some(TransferRefusal::NotAuthorised)
        } else if self.rules.approved_counterparties@.len() > 0 && !self.rules.approved_counterparties@.contains(to) {
            Some(TransferRefusal::CounterpartyNotApproved)
        } else if self.rules.require_witness && witness is None {
            Some(TransferRefusal::WitnessRequired)
        } else if self.rules.bound_device is Some && witness != self.rules.bound_device {
            Some(TransferRefusal::WrongWitness)
        } else if amount > limits.max_per_transaction {
            Some(TransferRefusal::ExceedsPerTransaction)
        } else if st.spent_today + amount > limits.max_per_day {
            Some(TransferRefusal::ExceedsDaily)
        } else if st.spent_this_month + amount > limits.max_per_month {
            Some(TransferRefusal::ExceedsMonthly)
        } else if st.transactions_today >= limits.max_transactions_per_day {
            Some(TransferRefusal::ExceedsTransactionCount)
        } else if st.last_transaction_ms > 0 && saturating_sub(timestamp_ms, st.last_transaction_ms)
            < limits.min_interval_ms {
            Some(TransferRefusal::IntervalNotMet)
        } else if self.balance < amount {
            Some(TransferRefusal::InsufficientBalance)
        } else if st.total_spent + amount > u64::MAX {
            Some(TransferRefusal::TotalOverflow)
        } else {
            None
        }
    }

    /// The statistics after a transfer of `amount` at `timestamp_ms`.
    pub open spec fn stats_after(&self, amount: u64, timestamp_ms: u64, day: u64, month: u64) -> SpendingStats {
        let st = rolled_over(self.stats, day, month);
        SpendingStats {
            total_spent: (st.total_spent + amount) as u64,
            spent_today: (st.spent_today + amount) as u64,
            spent_this_month: (st.spent_this_month + amount) as u64,
            transactions_today: (st.transactions_today + 1) as u32,
            last_transaction_ms: timestamp_ms,
            ..st
        }
    }

    /// A wallet of `owner` with no limits, no balance and nothing spent.
    pub fn new(owner: [u8; 32]) -> (s: Self)
        ensures
            s.rules.owner == owner,
            s.rules.guardian is None,
            s.rules.limits == (SpendingLimits {
                max_per_transaction: u64::MAX,
                max_per_day: u64::MAX,
                max_per_month: u64::MAX,
                max_transactions_per_day: u32::MAX,
                min_interval_ms: 0,
            }),
            s.rules.approved_counterparties@.len() == 0,
            s.rules.approved_interfaces@.len() == 0,
            !s.rules.require_witness,
            s.rules.bound_device is None,
            s.rules.auto_sweep_threshold is None,
            s.stats.total_spent == 0 && s.stats.spent_today == 0 && s.stats.spent_this_month == 0,
            s.stats.transactions_today == 0 && s.stats.last_transaction_ms == 0,
            s.stats.current_day == 0 && s.stats.current_month == 0,
            s.transaction_log@.len() == 0,
            !s.frozen,
            s.balance == 0,
    {
        AgentWalletState {
            rules: WalletRules {
                owner,
                guardian: None,
                limits: SpendingLimits::default(),
                approved_counterparties: Vec::new(),
                approved_interfaces: Vec::new(),
                require_witness: false,
                bound_device: None,
                auto_sweep_threshold: None,
            },
            stats: SpendingStats::new(),
            transaction_log: Vec::new(),
            frozen: false,
            balance: 0,
        }
    }

    /// The first rule that refuses a transfer of `amount` to `to` by
    /// `caller` at `timestamp_ms`, on the day and month given; none where
    /// the wallet admits it, so that `execute_transfer` and `execute_call`
    /// may run.
    pub fn transfer_refusal(
        &self,
        caller: [u8; 32],
        to: [u8; 32],
        amount: u64,
        timestamp_ms: u64,
        day: u64,
        month: u64,
        witness: Option<[u8; 32]>,
    ) -> (r: Option<TransferRefusal>)
        ensures
            r == self.refusal(caller, to, amount, timestamp_ms, day, month, witness),
            r is None <==> self.transfer_allowed(caller, to, amount, timestamp_ms, day, month, witness),
    {
        if self.frozen {
            return Some(TransferRefusal::Frozen);
        }
        if !(addr_eq(&caller, &self.rules.owner) || addr_in(&self.rules.approved_interfaces, &caller)) {
            return Some(TransferRefusal::NotAuthorised);
        }
        if self.rules.approved_counterparties.len() > 0 && !addr_in(&self.rules.approved_counterparties, &to) {
            return Some(TransferRefusal::CounterpartyNotApproved);
        }
        if self.rules.require_witness && witness.is_none() {
            return Some(TransferRefusal::WitnessRequired);
        }
        match self.rules.bound_device {
            Some(device) => {
                let witnessed = match witness {
                    Some(w) => addr_eq(&w, &device),
                    None => false,
                };
                if !witnessed {
                    return Some(TransferRefusal::WrongWitness);
                }
            },
            None => {},
        }
        let mut st = self.stats;
        st.roll_over(day, month);
        let limits = self.rules.limits;
        if amount > limits.max_per_transaction {
            return Some(TransferRefusal::ExceedsPerTransaction);
        }
        if st.spent_today > limits.max_per_day || amount > limits.max_per_day - st.spent_today {
            return Some(TransferRefusal::ExceedsDaily);
        }
        if st.spent_this_month > limits.max_per_month || amount > limits.max_per_month - st.spent_this_month {
            return Some(TransferRefusal::ExceedsMonthly);
        }
        if st.transactions_today >= limits.max_transactions_per_day {
            return Some(TransferRefusal::ExceedsTransactionCount);
        }
        if st.last_transaction_ms > 0 {
            let elapsed = if timestamp_ms >= st.last_transaction_ms {
                timestamp_ms - st.last_transaction_ms
            } else {
                0
            };
            if elapsed < limits.min_interval_ms {
                return Some(TransferRefusal::IntervalNotMet);
            }
        }
        if self.balance < amount {
            return Some(TransferRefusal::InsufficientBalance);
        }
        if amount > u64::MAX - st.total_spent {
            return Some(TransferRefusal::TotalOverflow);
        }
        None
    }

    /// Sends `amount` to `to` under the spending rules and records it with `memo`.
    pub fn execute_transfer(
        &mut self,
        caller: [u8; 32],
        to: [u8; 32],
        amount: u64,
        timestamp_ms: u64,
        day: u64,
        month: u64,
        memo: String,
        witness: Option<[u8; 32]>,
    )
        requires
            old(self).transfer_allowed(caller, to, amount, timestamp_ms, day, month, witness),
        ensures
            final(self).balance == old(self).balance - amount,
            final(self).stats == old(self).stats_after(amount, timestamp_ms, day, month),
            final(self).transaction_log@ == old(self).transaction_log@.push(
                TransactionRecord { to, amount, timestamp_ms, memo },
            ),
            final(self).rules == old(self).rules,
            final(self).frozen == old(self).frozen,
    {
        self.stats.roll_over(day, month);
        self.balance = self.balance - amount;
        self.stats.total_spent = self.stats.total_spent + amount;
        self.stats.spent_today = self.stats.spent_today + amount;
        self.stats.spent_this_month = self.stats.spent_this_month + amount;
        self.stats.transactions_today = self.stats.transactions_today + 1;
        self.stats.last_transaction_ms = timestamp_ms;
        self.transaction_log.push(TransactionRecord { to, amount, timestamp_ms, memo });
    }

    /// A transfer that also invokes `method` on `target`; recorded with memo `call:<method>`.
    pub fn execute_call(
        &mut self,
        caller: [u8; 32],
        target: [u8; 32],
        amount: u64,
        timestamp_ms: u64,
        day: u64,
        month: u64,
        method: String,
        witness: Option<[u8; 32]>,
    )
        requires
            old(self).transfer_allowed(caller, target, amount, timestamp_ms, day, month, witness),
        ensures
            final(self).balance == old(self).balance - amount,
            final(self).stats == old(self).stats_after(amount, timestamp_ms, day, month),
            final(self).transaction_log@.len() == old(self).transaction_log@.len() + 1,
            final(self).transaction_log@.drop_last() == old(self).transaction_log@,
            final(self).transaction_log@.last().to == target,
            final(self).transaction_log@.last().amount == amount,
            final(self).transaction_log@.last().timestamp_ms == timestamp_ms,
            final(self).transaction_log@.last().memo@ == "call:"@ + method@,
            final(self).rules == old(self).rules,
            final(self).frozen == old(self).frozen,
    {
        let mut memo = String::from_str("call:");
        memo.append(method.as_str());
        self.execute_transfer(caller, target, amount, timestamp_ms, day, month, memo, witness);
        assert(self.transaction_log@.drop_last() =~= old(self).transaction_log@);
    }

    /// The owner or the guardian freezes the wallet.
    pub fn emergency_stop(&mut self, caller: [u8; 32])
        requires
            caller == old(self).rules.owner || old(self).rules.guardian == Some(caller),
        ensures
            final(self).frozen,
            final(self).rules == old(self).rules,
            final(self).stats == old(self).stats,
            final(self).transaction_log == old(self).transaction_log,
            final(self).balance == old(self).balance,
    {
        self.frozen = true;
    }

    /// The owner unfreezes the wallet.
    pub fn resume(&mut self, caller: [u8; 32])
        requires
            caller == old(self).rules.owner,
        ensures
            !final(self).frozen,
            final(self).rules == old(self).rules,
            final(self).stats == old(self).stats,
            final(self).transaction_log == old(self).transaction_log,
            final(self).balance == old(self).balance,
    {
        self.frozen = false;
    }

    /// The owner replaces the spending limits.
    pub fn set_limits(&mut self, caller: [u8; 32], limits: SpendingLimits)
        requires
            caller == old(self).rules.owner,
        ensures
            final(self).rules == (WalletRules { limits, ..old(self).rules }),
            final(self).stats == old(self).stats,
            final(self).transaction_log == old(self).transaction_log,
            final(self).frozen == old(self).frozen,
            final(self).balance == old(self).balance,
    {
        self.rules.limits = limits;
    }

    /// The owner adds `counterparty` to the approved recipients, once.
    pub fn add_approved_counterparty(&mut self, caller: [u8; 32], counterparty: [u8; 32])
        requires
            caller == old(self).rules.owner,
        ensures
            old(self).rules.approved_counterparties@.contains(counterparty)
                ==> final(self).rules.approved_counterparties@
                == old(self).rules.approved_counterparties@,
            !old(self).rules.approved_counterparties@.contains(counterparty)
                ==> final(self).rules.approved_counterparties@
                == old(self).rules.approved_counterparties@.push(counterparty),
            final(self).rules.owner == old(self).rules.owner,
            final(self).rules.guardian == old(self).rules.guardian,
            final(self).rules.limits == old(self).rules.limits,
            final(self).rules.approved_interfaces == old(self).rules.approved_interfaces,
            final(self).rules.require_witness == old(self).rules.require_witness,
            final(self).rules.bound_device == old(self).rules.bound_device,
            final(self).rules.auto_sweep_threshold == old(self).rules.auto_sweep_threshold,
            final(self).stats == old(self).stats,
            final(self).transaction_log == old(self).transaction_log,
            final(self).frozen == old(self).frozen,
            final(self).balance == old(self).balance,
    {
        push_addr_once(&mut self.rules.approved_counterparties, counterparty);
    }

    /// The owner removes `counterparty` from the approved recipients.
    pub fn remove_approved_counterparty(&mut self, caller: [u8; 32], counterparty: [u8; 32])
        requires
            caller == old(self).rules.owner,
        ensures
            final(self).rules.approved_counterparties@
                == old(self).rules.approved_counterparties@.filter(
                |c: [u8; 32]| c != counterparty,
            ),
            final(self).rules.owner == old(self).rules.owner,
            final(self).rules.guardian == old(self).rules.guardian,
            final(self).rules.limits == old(self).rules.limits,
            final(self).rules.approved_interfaces == old(self).rules.approved_interfaces,
            final(self).rules.require_witness == old(self).rules.require_witness,
            final(self).rules.bound_device == old(self).rules.bound_device,
            final(self).rules.auto_sweep_threshold == old(self).rules.auto_sweep_threshold,
            final(self).stats == old(self).stats,
            final(self).transaction_log == old(self).transaction_log,
            final(self).frozen == old(self).frozen,
            final(self).balance == old(self).balance,
    {
        remove_addr(&mut self.rules.approved_counterparties, &counterparty);
    }

    /// Adds `amount` to the balance.
    pub fn deposit(&mut self, amount: u64)
        requires
            amount > 0,
            old(self).balance + amount <= u64::MAX,
        ensures
            final(self).balance == old(self).balance + amount,
            final(self).rules == old(self).rules,
            final(self).stats == old(self).stats,
            final(self).transaction_log == old(self).transaction_log,
            final(self).frozen == old(self).frozen,
    {
        self.balance = self.balance + amount;
    }

    pub fn spending_stats(&self) -> (r: &SpendingStats)
        ensures
            *r == self.stats,
    {
        &self.stats
    }
}

/// After a transfer the amount spent today and this month stays within the
/// daily and monthly limits, and the balance never goes below zero.
pub proof fn law_transfer_within_limits(
    before: AgentWalletState,
    caller: [u8; 32],
    to: [u8; 32],
    amount: u64,
    timestamp_ms: u64,
    day: u64,
    month: u64,
    witness: Option<[u8; 32]>,
)
    requires
        before.transfer_allowed(caller, to, amount, timestamp_ms, day, month, witness),
    ensures
        before.stats_after(amount, timestamp_ms, day, month).spent_today
            <= before.rules.limits.max_per_day,
        before.stats_after(amount, timestamp_ms, day, month).spent_this_month
            <= before.rules.limits.max_per_month,
        before.stats_after(amount, timestamp_ms, day, month).transactions_today
            <= before.rules.limits.max_transactions_per_day,
        before.balance - amount >= 0,
{
}

} // verus!
