//! DRC-103 service agreements: escrow-backed agreements between a client and a provider.
use vstd::prelude::*;
use crate::keymap::{KeyMap, key_at_index};

verus! {

/// Where an agreement stands.
#[derive(Clone, Copy, Debug, PartialEq, Eq, Structural)]
pub enum AgreementStatus {
    Proposed,
    Active,
    Delivered,
    Completed,
    Disputed,
    Cancelled,
    Expired,
}

/// What the client and provider agreed on.
#[derive(Clone, Debug)]
pub struct AgreementTerms {
    pub client: [u8; 32],
    pub provider: [u8; 32],
    pub description: String,
    pub amount: u64,
    pub deliverables: Vec<String>,
    pub deadline: u64,
    pub auto_confirm_after: u64,
}

/// One agreement and its progress.
#[derive(Clone, Debug)]
pub struct Agreement {
    pub id: u64,
    pub terms: AgreementTerms,
    pub status: AgreementStatus,
    pub created_at: u64,
    pub delivered_at: Option<u64>,
    pub delivery_proof: Option<String>,
    pub completed_at: Option<u64>,
    pub dispute_reason: Option<String>,
    pub escrow_locked: u64,
}

/// The registry of agreements and the escrow each client has locked.
#[derive(Clone, Debug)]
pub struct ServiceAgreementState {
    pub agreements: KeyMap<u64, Agreement>,
    pub next_id: u64,
    pub escrow_balances: KeyMap<[u8; 32], u64>,
}

/// Whether an agreement in this status still holds its escrow.
pub open spec fn locks_escrow(st: AgreementStatus) -> bool {
    st is Proposed || st is Active || st is Delivered || st is Disputed
}

/// The escrow an agreement holds for `client`.
pub open spec fn escrow_held(a: Agreement, client: [u8; 32]) -> int {
    if a.terms.client == client && locks_escrow(a.status) {
        a.escrow_locked as int
    } else {
        0
    }
}

/// The escrow that a sequence of agreements holds for `client`.
pub open spec fn escrow_in(s: Seq<(u64, Agreement)>, client: [u8; 32]) -> int
    decreases s.len(),
{
    if s.len() == 0 {
        0
    } else {
        escrow_in(s.drop_last(), client) + escrow_held(s.last().1, client)
    }
}

/// Replacing agreement `i` changes the escrow held by the difference.
pub proof fn lemma_escrow_in_update(s: Seq<(u64, Agreement)>, i: int, e: (u64, Agreement), client: [u8; 32])
    requires
        0 <= i < s.len(),
    ensures
        escrow_in(s.update(i, e), client) == escrow_in(s, client) - escrow_held(s[i].1, client)
            + escrow_held(e.1, client),
    decreases s.len(),
{
    let t = s.update(i, e);
    if i == s.len() - 1 {
        assert(t.drop_last() =~= s.drop_last());
    } else {
        assert(t.drop_last() =~= s.drop_last().update(i, e));
        lemma_escrow_in_update(s.drop_last(), i, e, client);
    }
}

/// The escrow held by a sequence is at least what each of its agreements holds.
pub proof fn lemma_escrow_in_ge(s: Seq<(u64, Agreement)>, i: int, client: [u8; 32])
    requires
        0 <= i < s.len(),
    ensures
        escrow_in(s, client) >= escrow_held(s[i].1, client),
    decreases s.len(),
{
    lemma_escrow_in_nonneg(s.drop_last(), client);
    if i < s.len() - 1 {
        lemma_escrow_in_ge(s.drop_last(), i, client);
    }
}

/// The escrow held by a sequence is not negative.
pub proof fn lemma_escrow_in_nonneg(s: Seq<(u64, Agreement)>, client: [u8; 32])
    ensures
        escrow_in(s, client) >= 0,
    decreases s.len(),
{
    if s.len() > 0 {
        lemma_escrow_in_nonneg(s.drop_last(), client);
    }
}

impl ServiceAgreementState {
    /// The escrow recorded for `client`.
    pub open spec fn escrow_of(&self, client: [u8; 32]) -> u64 {
        self.escrow_balances.get_or(client@, 0)
    }

    /// The invariant: identifiers are below `next_id`, escrow is positive, a
    /// delivered agreement knows when it was delivered, and each client's
    /// recorded escrow is what its open agreements hold.
    pub open spec fn wf(&self) -> bool {
        &&& self.agreements.wf()
        &&& self.escrow_balances.wf()
        &&& self.next_id >= 1
        &&& forall|k: u64| #[trigger] self.agreements@.contains_key(k) ==> {
            &&& k < self.next_id
            &&& self.agreements@[k].escrow_locked > 0
            &&& (self.agreements@[k].status is Delivered ==> self.agreements@[k].delivered_at is Some)
        }
        &&& forall|c: [u8; 32]| #[trigger] self.escrow_of(c) == escrow_in(self.agreements.entries(), c)
    }

    /// An empty registry; identifiers start at 1.
    pub fn new() -> (s: Self)
        ensures
            s.wf(),
            s.agreements@ == Map::<u64, Agreement>::empty(),
            s.next_id == 1,
            s.escrow_balances@ == Map::<Seq<u8>, u64>::empty(),
    {
        let s = ServiceAgreementState {
            agreements: KeyMap::new(),
            next_id: 1,
            escrow_balances: KeyMap::new(),
        };
        assert forall|c: [u8; 32]| #[trigger] s.escrow_of(c) == escrow_in(s.agreements.entries(), c) by {
        }
        s
    }

    /// The agreement stored at entry `i`.
    pub open spec fn agreement_at(&self, i: int) -> Agreement {
        self.agreements.entries()[i].1
    }

    /// The identifier of the agreement stored at entry `i`.
    pub open spec fn id_at(&self, i: int) -> u64 {
        self.agreements.entries()[i].0
    }

    /// Changing agreement `i` in place, keeping its client, escrow and whether
    /// it holds escrow, keeps the invariant.
    proof fn lemma_change_keeps_wf(old_s: Self, new_s: Self, i: int)
        requires
            old_s.wf(),
            0 <= i < old_s.agreements.entries().len(),
            new_s.agreements.entries() == old_s.agreements.entries().update(
                i,
                (old_s.id_at(i), new_s.agreement_at(i)),
            ),
            new_s.next_id == old_s.next_id,
            new_s.escrow_balances == old_s.escrow_balances,
            new_s.agreement_at(i).terms.client == old_s.agreement_at(i).terms.client,
            new_s.agreement_at(i).escrow_locked == old_s.agreement_at(i).escrow_locked,
            locks_escrow(new_s.agreement_at(i).status) == locks_escrow(old_s.agreement_at(i).status),
            new_s.agreement_at(i).status is Delivered ==> new_s.agreement_at(i).delivered_at is Some,
        ensures
            new_s.wf(),
            new_s.agreements@ == old_s.agreements@.insert(old_s.id_at(i), new_s.agreement_at(i)),
    {
        old_s.agreements.lemma_entry(i);
        KeyMap::lemma_set_at(old_s.agreements, new_s.agreements, i);
        assert forall|c: [u8; 32]| #[trigger] new_s.escrow_of(c) == escrow_in(new_s.agreements.entries(), c) by {
            assert(old_s.escrow_of(c) == escrow_in(old_s.agreements.entries(), c));
            lemma_escrow_in_update(old_s.agreements.entries(), i, (old_s.id_at(i), new_s.agreement_at(i)), c);
        }
    }

    /// Closing agreement `i` in place and releasing its escrow keeps the invariant.
    proof fn lemma_close_keeps_wf(old_s: Self, mid: Self, new_s: Self, i: int)
        requires
            old_s.wf(),
            0 <= i < old_s.agreements.entries().len(),
            mid.agreements.entries() == old_s.agreements.entries().update(
                i,
                (old_s.id_at(i), mid.agreement_at(i)),
            ),
            new_s.agreements == mid.agreements,
            new_s.next_id == old_s.next_id,
            mid.agreement_at(i).terms.client == old_s.agreement_at(i).terms.client,
            mid.agreement_at(i).escrow_locked == old_s.agreement_at(i).escrow_locked,
            locks_escrow(old_s.agreement_at(i).status),
            !locks_escrow(mid.agreement_at(i).status),
            new_s.escrow_balances.wf(),
            new_s.escrow_balances@ == old_s.escrow_balances@.insert(
                old_s.agreement_at(i).terms.client@,
                (old_s.escrow_of(old_s.agreement_at(i).terms.client) - old_s.agreement_at(i).escrow_locked) as u64,
            ),
        ensures
            new_s.wf(),
            new_s.agreements@ == old_s.agreements@.insert(old_s.id_at(i), mid.agreement_at(i)),
    {
        let client = old_s.agreement_at(i).terms.client;
        assert(old_s.escrow_of(client) == escrow_in(old_s.agreements.entries(), client));
        old_s.agreements.lemma_entry(i);
        KeyMap::lemma_set_at(old_s.agreements, new_s.agreements, i);
        lemma_escrow_in_ge(old_s.agreements.entries(), i, client);
        assert forall|c: [u8; 32]| #[trigger] new_s.escrow_of(c) == escrow_in(new_s.agreements.entries(), c) by {
            assert(old_s.escrow_of(c) == escrow_in(old_s.agreements.entries(), c));
            lemma_escrow_in_update(old_s.agreements.entries(), i, (old_s.id_at(i), mid.agreement_at(i)), c);
            crate::addr::lemma_addr_view_eq(c, client);
        }
    }

    /// The entry index of agreement `id`, which exists.
    fn index_of(&self, id: u64) -> (i: usize)
        requires
            self.wf(),
            self.agreements@.contains_key(id),
        ensures
            i < self.agreements.entries().len(),
            self.id_at(i as int) == id,
            self.agreement_at(i as int) == self.agreements@[id],
    {
        let i = self.agreements.find(&id).unwrap();
        proof {
            self.agreements.lemma_entry(i as int);
        }
        i
    }

    /// Releases `payout` from the escrow recorded for `client`.
    fn release_escrow(&mut self, client: [u8; 32], payout: u64)
        requires
            old(self).escrow_balances.wf(),
            old(self).escrow_of(client) >= payout,
        ensures
            final(self).escrow_balances.wf(),
            final(self).escrow_balances@ == old(self).escrow_balances@.insert(
                client@,
                (old(self).escrow_of(client) - payout) as u64,
            ),
            final(self).agreements == old(self).agreements,
            final(self).next_id == old(self).next_id,
    {
        let current = self.escrow_balances.get_or_zero(&client);
        self.escrow_balances.insert(client, current - payout);
    }

    /// The client proposes an agreement and locks `terms.amount` in escrow;
    /// returns the new agreement's identifier.
    pub fn propose(
        &mut self,
        caller: [u8; 32],
        terms: AgreementTerms,
        timestamp: u64,
        client_balance: u64,
    ) -> (id: u64)
        requires
            old(self).wf(),
            caller == terms.client,
            terms.amount > 0,
            terms.deliverables@.len() > 0,
            terms.deadline > timestamp,
            client_balance >= terms.amount,
            old(self).next_id < u64::MAX,
            old(self).escrow_of(caller) + terms.amount <= u64::MAX,
        ensures
            final(self).wf(),
            id == old(self).next_id,
            final(self).next_id == old(self).next_id + 1,
            final(self).agreements@ == old(self).agreements@.insert(
                id,
                Agreement {
                    id,
                    terms,
                    status: AgreementStatus::Proposed,
                    created_at: timestamp,
                    delivered_at: None,
                    delivery_proof: None,
                    completed_at: None,
                    dispute_reason: None,
                    escrow_locked: terms.amount,
                },
            ),
            final(self).escrow_balances@ == old(self).escrow_balances@.insert(
                caller@,
                (old(self).escrow_of(caller) + terms.amount) as u64,
            ),
    {
        let ghost before = self.agreements;
        let id = self.next_id;
        self.next_id = self.next_id + 1;
        let escrow_amount = terms.amount;
        let agreement = Agreement {
            id,
            terms,
            status: AgreementStatus::Proposed,
            created_at: timestamp,
            delivered_at: None,
            delivery_proof: None,
            completed_at: None,
            dispute_reason: None,
            escrow_locked: escrow_amount,
        };
        let ghost new_agreement = agreement;
        assert(!before@.contains_key(id));
        self.agreements.insert(id, agreement);
        let current = self.escrow_balances.get_or_zero(&caller);
        self.escrow_balances.insert(caller, current + escrow_amount);
        proof {
            assert(self.agreements.entries() == before.entries().push((id, new_agreement)));
            assert forall|c: [u8; 32]| #[trigger] self.escrow_of(c) == escrow_in(self.agreements.entries(), c) by {
                assert(self.agreements.entries().drop_last() =~= before.entries());
                assert(old(self).escrow_of(c) == escrow_in(before.entries(), c));
                crate::addr::lemma_addr_view_eq(c, caller);
            }
        }
        id
    }

    /// The provider accepts a proposed agreement.
    pub fn accept(&mut self, caller: [u8; 32], agreement_id: u64)
        requires
            old(self).wf(),
            old(self).agreements@.contains_key(agreement_id),
            caller == old(self).agreements@[agreement_id].terms.provider,
            old(self).agreements@[agreement_id].status is Proposed,
        ensures
            final(self).wf(),
            final(self).agreements@ == old(self).agreements@.insert(
                agreement_id,
                Agreement { status: AgreementStatus::Active, ..old(self).agreements@[agreement_id] },
            ),
            final(self).next_id == old(self).next_id,
            final(self).escrow_balances == old(self).escrow_balances,
    {
        let ghost old_s = *self;
        let i = self.index_of(agreement_id);
        let slot = self.agreements.value_mut_at(i);
        slot.status = AgreementStatus::Active;
        proof {
            Self::lemma_change_keeps_wf(old_s, *self, i as int);
        }
    }

    /// The provider marks an active agreement delivered, with a proof of delivery.
    pub fn deliver(&mut self, caller: [u8; 32], agreement_id: u64, proof: String, timestamp: u64)
        requires
            old(self).wf(),
            old(self).agreements@.contains_key(agreement_id),
            caller == old(self).agreements@[agreement_id].terms.provider,
            old(self).agreements@[agreement_id].status is Active,
        ensures
            final(self).wf(),
            final(self).agreements@ == old(self).agreements@.insert(
                agreement_id,
                Agreement {
                    status: AgreementStatus::Delivered,
                    delivered_at: Some(timestamp),
                    delivery_proof: Some(proof),
                    ..old(self).agreements@[agreement_id]
                },
            ),
            final(self).next_id == old(self).next_id,
            final(self).escrow_balances == old(self).escrow_balances,
    {
        let ghost old_s = *self;
        let i = self.index_of(agreement_id);
        let slot = self.agreements.value_mut_at(i);
        slot.status = AgreementStatus::Delivered;
        slot.delivered_at = Some(timestamp);
        slot.delivery_proof = Some(proof);
        proof {
            Self::lemma_change_keeps_wf(old_s, *self, i as int);
        }
    }

    /// The client confirms delivery; the escrow is released to the provider.
    /// Returns the payout and the provider.
    pub fn confirm(&mut self, caller: [u8; 32], agreement_id: u64, timestamp: u64) -> (r: (u64, [u8; 32]))
        requires
            old(self).wf(),
            old(self).agreements@.contains_key(agreement_id),
            caller == old(self).agreements@[agreement_id].terms.client,
            old(self).agreements@[agreement_id].status is Delivered,
        ensures
            final(self).wf(),
            r.0 == old(self).agreements@[agreement_id].escrow_locked,
            r.1 == old(self).agreements@[agreement_id].terms.provider,
            final(self).agreements@ == old(self).agreements@.insert(
                agreement_id,
                Agreement {
                    status: AgreementStatus::Completed,
                    completed_at: Some(timestamp),
                    ..old(self).agreements@[agreement_id]
                },
            ),
            final(self).next_id == old(self).next_id,
            final(self).escrow_balances@ == old(self).escrow_balances@.insert(
                caller@,
                (old(self).escrow_of(caller) - r.0) as u64,
            ),
    {
        let ghost old_s = *self;
        let i = self.index_of(agreement_id);
        let slot = self.agreements.value_mut_at(i);
        slot.status = AgreementStatus::Completed;
        slot.completed_at = Some(timestamp);
        let payout = slot.escrow_locked;
        let provider = slot.terms.provider;
        let client = slot.terms.client;
        let ghost mid = *self;
        proof {
            old_s.agreements.lemma_entry(i as int);
            lemma_escrow_in_ge(old_s.agreements.entries(), i as int, client);
            assert(old_s.escrow_of(client) == escrow_in(old_s.agreements.entries(), client));
        }
        self.release_escrow(client, payout);
        proof {
            Self::lemma_close_keeps_wf(old_s, mid, *self, i as int);
        }
        (payout, provider)
    }

    /// The client or the provider disputes an active or delivered agreement.
    pub fn dispute(&mut self, caller: [u8; 32], agreement_id: u64, reason: String)
        requires
            old(self).wf(),
            old(self).agreements@.contains_key(agreement_id),
            caller == old(self).agreements@[agreement_id].terms.client || caller
                == old(self).agreements@[agreement_id].terms.provider,
            old(self).agreements@[agreement_id].status is Active
                || old(self).agreements@[agreement_id].status is Delivered,
        ensures
            final(self).wf(),
            final(self).agreements@ == old(self).agreements@.insert(
                agreement_id,
                Agreement {
                    status: AgreementStatus::Disputed,
                    dispute_reason: Some(reason),
                    ..old(self).agreements@[agreement_id]
                },
            ),
            final(self).next_id == old(self).next_id,
            final(self).escrow_balances == old(self).escrow_balances,
    {
        let ghost old_s = *self;
        let i = self.index_of(agreement_id);
        let slot = self.agreements.value_mut_at(i);
        slot.status = AgreementStatus::Disputed;
        slot.dispute_reason = Some(reason);
        proof {
            Self::lemma_change_keeps_wf(old_s, *self, i as int);
        }
    }

    /// The client cancels a proposed agreement; its escrow is returned.
    /// Returns the refund.
    pub fn cancel(&mut self, caller: [u8; 32], agreement_id: u64) -> (refund: u64)
        requires
            old(self).wf(),
            old(self).agreements@.contains_key(agreement_id),
            caller == old(self).agreements@[agreement_id].terms.client,
            old(self).agreements@[agreement_id].status is Proposed,
        ensures
            final(self).wf(),
            refund == old(self).agreements@[agreement_id].escrow_locked,
            final(self).agreements@ == old(self).agreements@.insert(
                agreement_id,
                Agreement { status: AgreementStatus::Cancelled, ..old(self).agreements@[agreement_id] },
            ),
            final(self).next_id == old(self).next_id,
            final(self).escrow_balances@ == old(self).escrow_balances@.insert(
                caller@,
                (old(self).escrow_of(caller) - refund) as u64,
            ),
    {
        let ghost old_s = *self;
        let i = self.index_of(agreement_id);
        let slot = self.agreements.value_mut_at(i);
        slot.status = AgreementStatus::Cancelled;
        let refund = slot.escrow_locked;
        let ghost mid = *self;
        proof {
            old_s.agreements.lemma_entry(i as int);
            lemma_escrow_in_ge(old_s.agreements.entries(), i as int, caller);
            assert(old_s.escrow_of(caller) == escrow_in(old_s.agreements.entries(), caller));
        }
        self.release_escrow(caller, refund);
        proof {
            Self::lemma_close_keeps_wf(old_s, mid, *self, i as int);
        }
        refund
    }

    /// Completes a delivered agreement once `auto_confirm_after` has passed
    /// since delivery; returns the payout and the provider, or `None` where
    /// the agreement is not delivered or the period has not passed.
    pub fn auto_confirm(&mut self, agreement_id: u64, current_timestamp: u64) -> (r: Option<(u64, [u8; 32])>)
        requires
            old(self).wf(),
            old(self).agreements@.contains_key(agreement_id),
            old(self).agreements@[agreement_id].status is Delivered ==> old(self).agreements@[agreement_id].delivered_at->0
                + old(self).agreements@[agreement_id].terms.auto_confirm_after <= u64::MAX,
        ensures
            final(self).wf(),
            final(self).next_id == old(self).next_id,
            ({
                let a = old(self).agreements@[agreement_id];
                if a.status is Delivered && current_timestamp >= a.delivered_at->0 + a.terms.auto_confirm_after {
                    &&& r == Some((a.escrow_locked, a.terms.provider))
                    &&& final(self).agreements@ == old(self).agreements@.insert(
                        agreement_id,
                        Agreement {
                            status: AgreementStatus::Completed,
                            completed_at: Some(current_timestamp),
                            ..a
                        },
                    )
                    &&& final(self).escrow_balances@ == old(self).escrow_balances@.insert(
                        a.terms.client@,
                        (old(self).escrow_of(a.terms.client) - a.escrow_locked) as u64,
                    )
                } else {
                    &&& r is None
                    &&& final(self).agreements == old(self).agreements
                    &&& final(self).escrow_balances == old(self).escrow_balances
                }
            }),
    {
        let ghost old_s = *self;
        let i = self.index_of(agreement_id);
        let status = self.agreements.value_at(i).status;
        match status {
            AgreementStatus::Delivered => {},
            _ => {
                return None;
            },
        }
        let delivered_at = self.agreements.value_at(i).delivered_at.unwrap();
        let auto_confirm_after = self.agreements.value_at(i).terms.auto_confirm_after;
        if current_timestamp < delivered_at + auto_confirm_after {
            return None;
        }
        let slot = self.agreements.value_mut_at(i);
        slot.status = AgreementStatus::Completed;
        slot.completed_at = Some(current_timestamp);
        let payout = slot.escrow_locked;
        let provider = slot.terms.provider;
        let client = slot.terms.client;
        let ghost mid = *self;
        proof {
            old_s.agreements.lemma_entry(i as int);
            lemma_escrow_in_ge(old_s.agreements.entries(), i as int, client);
            assert(old_s.escrow_of(client) == escrow_in(old_s.agreements.entries(), client));
        }
        self.release_escrow(client, payout);
        proof {
            Self::lemma_close_keeps_wf(old_s, mid, *self, i as int);
        }
        Some((payout, provider))
    }

    /// The agreement with identifier `agreement_id`, if any.
    pub fn get_agreement(&self, agreement_id: u64) -> (r: Option<&Agreement>)
        requires
            self.wf(),
        ensures
            match r {
                Some(a) => self.agreements@.contains_key(agreement_id) && *a
                    == self.agreements@[agreement_id],
                None => !self.agreements@.contains_key(agreement_id),
            },
    {
        self.agreements.get(&agreement_id)
    }
}

impl Default for ServiceAgreementState {
    fn default() -> (s: Self)
        ensures
            s.wf(),
            s.agreements@ == Map::<u64, Agreement>::empty(),
            s.next_id == 1,
            s.escrow_balances@ == Map::<Seq<u8>, u64>::empty(),
    {
        Self::new()
    }
}

/// Each client's recorded escrow is the sum of what its proposed, active,
/// delivered and disputed agreements hold, so it covers every such agreement.
pub proof fn law_escrow_covers_open_agreements(s: ServiceAgreementState, id: u64)
    requires
        s.wf(),
        s.agreements@.contains_key(id),
        locks_escrow(s.agreements@[id].status),
    ensures
        s.escrow_of(s.agreements@[id].terms.client) >= s.agreements@[id].escrow_locked,
{
    s.agreements.lemma_key(id);
    let i = choose|i: int| #[trigger] key_at_index(s.agreements.entries(), id, i);
    s.agreements.lemma_entry(i);
    lemma_escrow_in_ge(s.agreements.entries(), i, s.agreements@[id].terms.client);
}

} // verus!
