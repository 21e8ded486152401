//! A governance timelock: the admin queues operations that may run only
//! once their delay has passed, and may cancel them before they run.
use vstd::prelude::*;
use crate::keymap::KeyMap;
use crate::text::{decimal, push_decimal};

verus! {

/// A queued operation.
#[derive(Clone, Debug)]
pub struct QueuedOperation {
    pub target: String,
    pub method: String,
    pub args: Vec<u8>,
    pub value: u64,
    /// The earliest time at which it may run.
    pub eta: u64,
    pub queued_at: u64,
    pub executed: bool,
    pub cancelled: bool,
}

/// The timelock.
#[derive(Clone, Debug)]
pub struct TimelockState {
    pub admin: String,
    pub min_delay: u64,
    /// The operations, by id.
    pub queued_ops: KeyMap<String, QueuedOperation>,
    pub next_op_id: u64,
}

/// The id of the `n`-th operation queued: `op_` and `n` in decimal.
pub open spec fn op_id_of(n: nat) -> Seq<char> {
    "op_"@ + decimal(n)
}

/// Whether `op` may run at `now`: it neither ran nor was cancelled, and its time has come.
pub open spec fn executable(op: QueuedOperation, now: u64) -> bool {
    !op.executed && !op.cancelled && now >= op.eta
}

/// Whether `op` may still be cancelled: it neither ran nor was cancelled.
pub open spec fn cancellable(op: QueuedOperation) -> bool {
    !op.executed && !op.cancelled
}

impl TimelockState {
    pub open spec fn wf(&self) -> bool {
        self.queued_ops.wf()
    }

    pub fn new(admin: String, min_delay: u64) -> (s: Self)
        ensures
            s.wf(),
            s.admin == admin,
            s.min_delay == min_delay,
            s.queued_ops@ == Map::<Seq<char>, QueuedOperation>::empty(),
            s.next_op_id == 1,
    {
        TimelockState { admin, min_delay, queued_ops: KeyMap::new(), next_op_id: 1 }
    }

    /// Queues an operation to run `delay` after `current_time`, the delay
    /// being at least the minimum; the admin only. Returns its id.
    pub fn queue_operation(
        &mut self,
        caller: &str,
        target: String,
        method: String,
        args: Vec<u8>,
        value: u64,
        delay: u64,
        current_time: u64,
    ) -> (r: String)
        requires
            old(self).wf(),
            caller@ == old(self).admin@,
            delay >= old(self).min_delay,
            current_time + delay <= u64::MAX,
            old(self).next_op_id < u64::MAX,
        ensures
            final(self).wf(),
            r@ == op_id_of(old(self).next_op_id as nat),
            final(self).next_op_id == old(self).next_op_id + 1,
            final(self).queued_ops@ == old(self).queued_ops@.insert(
                r@,
                QueuedOperation {
                    target,
                    method,
                    args,
                    value,
                    eta: (current_time + delay) as u64,
                    queued_at: current_time,
                    executed: false,
                    cancelled: false,
                },
            ),
            final(self).admin == old(self).admin,
            final(self).min_delay == old(self).min_delay,
    {
        let mut op_id = String::from_str("op_");
        push_decimal(&mut op_id, self.next_op_id);
        self.next_op_id = self.next_op_id + 1;
        let op = QueuedOperation {
            target,
            method,
            args,
            value,
            eta: current_time + delay,
            queued_at: current_time,
            executed: false,
            cancelled: false,
        };
        self.queued_ops.insert(op_id.clone(), op);
        op_id
    }

    /// Marks an operation whose time has come as run, and hands it back;
    /// the admin only.
    pub fn execute_operation(&mut self, caller: &str, op_id: &str, current_time: u64) -> (r: &QueuedOperation)
        requires
            old(self).wf(),
            caller@ == old(self).admin@,
            old(self).queued_ops@.contains_key(op_id@),
            executable(old(self).queued_ops@[op_id@], current_time),
        ensures
            final(self).wf(),
            final(self).queued_ops@ == old(self).queued_ops@.insert(
                op_id@,
                QueuedOperation { executed: true, ..old(self).queued_ops@[op_id@] },
            ),
            *r == final(self).queued_ops@[op_id@],
            final(self).admin == old(self).admin,
            final(self).min_delay == old(self).min_delay,
            final(self).next_op_id == old(self).next_op_id,
    {
        let key = op_id.to_owned();
        let i = match self.queued_ops.find(&key) {
            Some(i) => i,
            None => {
                assert(false);
                return self.queued_ops.value_at(0);
            },
        };
        let ghost before = self.queued_ops;
        proof {
            before.lemma_entry(i as int);
        }
        self.queued_ops.value_mut_at(i).executed = true;
        proof {
            KeyMap::lemma_set_at(before, self.queued_ops, i as int);
            self.queued_ops.lemma_entry(i as int);
        }
        self.queued_ops.value_at(i)
    }

    /// Cancels an operation that neither ran nor was cancelled; the admin only.
    pub fn cancel_operation(&mut self, caller: &str, op_id: &str)
        requires
            old(self).wf(),
            caller@ == old(self).admin@,
            old(self).queued_ops@.contains_key(op_id@),
            cancellable(old(self).queued_ops@[op_id@]),
        ensures
            final(self).wf(),
            final(self).queued_ops@ == old(self).queued_ops@.insert(
                op_id@,
                QueuedOperation { cancelled: true, ..old(self).queued_ops@[op_id@] },
            ),
            final(self).admin == old(self).admin,
            final(self).min_delay == old(self).min_delay,
            final(self).next_op_id == old(self).next_op_id,
    {
        let key = op_id.to_owned();
        let i = match self.queued_ops.find(&key) {
            Some(i) => i,
            None => {
                return ;
            },
        };
        let ghost before = self.queued_ops;
        proof {
            before.lemma_entry(i as int);
        }
        self.queued_ops.value_mut_at(i).cancelled = true;
        proof {
            KeyMap::lemma_set_at(before, self.queued_ops, i as int);
        }
    }

    /// Sets the minimum delay, which must be positive; the admin only.
    pub fn set_min_delay(&mut self, caller: &str, new_delay: u64)
        requires
            caller@ == old(self).admin@,
            new_delay > 0,
        ensures
            *final(self) == (TimelockState { min_delay: new_delay, ..*old(self) }),
    {
        self.min_delay = new_delay;
    }

    /// The operation with id `op_id`.
    pub fn get_operation(&self, op_id: &str) -> (r: Option<&QueuedOperation>)
        requires
            self.wf(),
        ensures
            match r {
                Some(op) => self.queued_ops@.contains_key(op_id@) && *op == self.queued_ops@[op_id@],
                None => !self.queued_ops@.contains_key(op_id@),
            },
    {
        self.queued_ops.get(&op_id.to_owned())
    }
}

/// An operation runs at most once, and a cancelled one never runs: after
/// either, it can neither run nor be cancelled at any time.
pub proof fn law_settled_operations_stay_settled(op: QueuedOperation, now: u64)
    requires
        op.executed || op.cancelled,
    ensures
        !executable(op, now),
        !cancellable(op),
{
}

/// No operation runs before the minimum delay that held when it was
/// queued has passed.
pub proof fn law_no_run_before_delay(
    min_delay: u64,
    delay: u64,
    current_time: u64,
    op: QueuedOperation,
    now: u64,
)
    requires
        delay >= min_delay,
        op.eta == current_time + delay,
        op.queued_at == current_time,
        executable(op, now),
    ensures
        now >= op.queued_at + min_delay,
{
}

} // verus!
