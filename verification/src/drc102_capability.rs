//! DRC-102, the machine capability registry: each device lists what it
//! offers, and an index finds the devices that offer a capability type.
use vstd::prelude::*;
use crate::addr::push_addr_once;
use crate::keymap::{str_eq, KeyMap};

verus! {

/// Whether a device can take work for a capability now.
#[derive(Clone, Copy, Debug, PartialEq, Eq, Structural)]
pub enum CapabilityStatus {
    Online,
    Busy,
    Offline,
    Maintenance,
}

/// How a capability is paid for.
#[derive(Clone, Debug)]
pub enum PricingModel {
    PerCall(u64),
    PerMinute(u64),
    /// A price per unit, and the unit's name.
    PerUnit(u64, String),
    Negotiable,
    Free,
}

impl PricingModel {
    /// A copy of the pricing.
    pub fn duplicate(&self) -> (r: Self)
        ensures
            r == *self,
    {
        match self {
            PricingModel::PerCall(p) => PricingModel::PerCall(*p),
            PricingModel::PerMinute(p) => PricingModel::PerMinute(*p),
            PricingModel::PerUnit(p, unit) => PricingModel::PerUnit(*p, unit.clone()),
            PricingModel::Negotiable => PricingModel::Negotiable,
            PricingModel::Free => PricingModel::Free,
        }
    }
}

/// One thing a device offers.
#[derive(Clone, Debug)]
pub struct Capability {
    pub capability_type: String,
    pub version: String,
    pub status: CapabilityStatus,
    pub pricing: PricingModel,
    pub metadata: KeyMap<String, String>,
    pub registered_at: u64,
    pub last_updated: u64,
}

/// The registry.
#[derive(Clone, Debug)]
pub struct CapabilityRegistryState {
    /// The capabilities of each device, in the order registered.
    pub device_capabilities: KeyMap<[u8; 32], Vec<Capability>>,
    /// For each capability type, the devices that offer it, in the order
    /// in which they first registered it.
    pub capability_index: KeyMap<String, Vec<[u8; 32]>>,
    pub admin: [u8; 32],
}

/// Whether a capability is of type `t`.
pub open spec fn type_is(t: Seq<char>) -> spec_fn(Capability) -> bool {
    |c: Capability| c.capability_type@ == t
}

/// The capabilities in `caps` of type `t`, in order.
pub open spec fn of_type(caps: Seq<Capability>, t: Seq<char>) -> Seq<Capability> {
    caps.filter(type_is(t))
}

/// The types of `caps`, in order.
pub open spec fn types_of(caps: Seq<Capability>) -> Seq<Seq<char>> {
    caps.map_values(|c: Capability| c.capability_type@)
}

/// The capabilities that references point to.
pub open spec fn derefs(refs: Seq<&Capability>) -> Seq<Capability> {
    refs.map_values(|c: &Capability| *c)
}

/// The devices listed for a type once `device` registers: it joins the
/// list, at its end, if it registers the type and is not listed yet.
pub open spec fn listed_after(listed: Seq<[u8; 32]>, device: [u8; 32], registers: bool) -> Seq<[u8; 32]> {
    if registers && !listed.contains(device) {
        listed.push(device)
    } else {
        listed
    }
}

/// The index once `device` registers capabilities of the types `types`.
pub open spec fn index_after(
    index: Map<Seq<char>, Seq<[u8; 32]>>,
    device: [u8; 32],
    types: Seq<Seq<char>>,
) -> Map<Seq<char>, Seq<[u8; 32]>> {
    Map::new(
        |t: Seq<char>| index.contains_key(t) || types.contains(t),
        |t: Seq<char>|
            listed_after(
                if index.contains_key(t) {
                    index[t]
                } else {
                    Seq::empty()
                },
                device,
                types.contains(t),
            ),
    )
}

/// What a search for type `t` finds among the devices `ids`: each device
/// that has capabilities of that type, with them, in the order of `ids`.
pub open spec fn search(ids: Seq<[u8; 32]>, devices: Map<Seq<u8>, Seq<Capability>>, t: Seq<char>) -> Seq<
    ([u8; 32], Seq<Capability>),
>
    decreases ids.len(),
{
    if ids.len() == 0 {
        Seq::empty()
    } else {
        let rest = search(ids.drop_last(), devices, t);
        let id = ids.last();
        if devices.contains_key(id@) && of_type(devices[id@], t).len() > 0 {
            rest.push((id, of_type(devices[id@], t)))
        } else {
            rest
        }
    }
}

/// The capabilities in a run of search results, as values.
pub open spec fn found(r: Seq<([u8; 32], Vec<&Capability>)>) -> Seq<([u8; 32], Seq<Capability>)> {
    r.map_values(|e: ([u8; 32], Vec<&Capability>)| (e.0, derefs(e.1@)))
}

/// `caps` with every capability of type `t` given `status`, updated at `ts`.
pub open spec fn with_status(caps: Seq<Capability>, t: Seq<char>, status: CapabilityStatus, ts: u64) -> Seq<
    Capability,
> {
    caps.map_values(
        |c: Capability|
            if c.capability_type@ == t {
                Capability { status, last_updated: ts, ..c }
            } else {
                c
            },
    )
}

/// `caps` with every capability of type `t` given `pricing`, updated at `ts`.
pub open spec fn with_pricing(caps: Seq<Capability>, t: Seq<char>, pricing: PricingModel, ts: u64) -> Seq<
    Capability,
> {
    caps.map_values(
        |c: Capability|
            if c.capability_type@ == t {
                Capability { pricing, last_updated: ts, ..c }
            } else {
                c
            },
    )
}

/// Whether some capability in `caps` is of type `t`.
pub open spec fn offers(caps: Seq<Capability>, t: Seq<char>) -> bool {
    exists|j: int| 0 <= j < caps.len() && #[trigger] caps[j].capability_type@ == t
}

/// Registering a type a second time lists a device no further.
proof fn lemma_listed_after_twice(listed: Seq<[u8; 32]>, device: [u8; 32], registered: bool)
    ensures
        listed_after(listed_after(listed, device, registered), device, true) == listed_after(
            listed,
            device,
            true,
        ),
{
    if registered && !listed.contains(device) {
        assert(listed.push(device)[listed.len() as int] == device);
    }
}

/// Listing a device that is not yet listed keeps the list free of repeats.
proof fn lemma_listed_after_no_duplicates(listed: Seq<[u8; 32]>, device: [u8; 32], registers: bool)
    requires
        listed.no_duplicates(),
    ensures
        listed_after(listed, device, registers).no_duplicates(),
{
    if registers && !listed.contains(device) {
        let l = listed.push(device);
        assert forall|i: int, j: int| 0 <= i < l.len() && 0 <= j < l.len() && i != j implies l[i] != l[j] by {
            if i == listed.len() {
                assert(listed[j] == l[j]);
            } else if j == listed.len() {
                assert(listed[i] == l[i]);
            }
        }
    }
}

/// The device ids of search results, in order.
pub open spec fn found_ids(r: Seq<([u8; 32], Seq<Capability>)>) -> Seq<[u8; 32]> {
    r.map_values(|e: ([u8; 32], Seq<Capability>)| e.0)
}

/// A search finds each device at most once where the devices searched are
/// listed once each, and finds only devices it searched.
proof fn lemma_search_no_duplicates(ids: Seq<[u8; 32]>, devices: Map<Seq<u8>, Seq<Capability>>, t: Seq<char>)
    requires
        ids.no_duplicates(),
    ensures
        found_ids(search(ids, devices, t)).no_duplicates(),
        forall|k: int| 0 <= k < search(ids, devices, t).len() ==> ids.contains(#[trigger] search(ids, devices, t)[k].0),
    decreases ids.len(),
{
    if ids.len() > 0 {
        let init = ids.drop_last();
        let id = ids.last();
        assert forall|i: int, j: int| 0 <= i < init.len() && 0 <= j < init.len() && i != j implies init[i] != init[j] by {
            assert(init[i] == ids[i] && init[j] == ids[j]);
        }
        lemma_search_no_duplicates(init, devices, t);
        let rest = search(init, devices, t);
        let r = search(ids, devices, t);
        assert forall|k: int| 0 <= k < rest.len() implies #[trigger] rest[k].0 != id by {
            let m = choose|m: int| 0 <= m < init.len() && init[m] == rest[k].0;
            assert(ids[m] == init[m]);
            assert(ids[ids.len() - 1] == id);
        }
        assert forall|k: int| 0 <= k < r.len() implies ids.contains(#[trigger] r[k].0) by {
            if k < rest.len() {
                let m = choose|m: int| 0 <= m < init.len() && init[m] == rest[k].0;
                assert(ids[m] == init[m]);
            } else {
                assert(ids[ids.len() - 1] == id);
            }
        }
        let f = found_ids(r);
        assert forall|i: int, j: int| 0 <= i < f.len() && 0 <= j < f.len() && i != j implies f[i] != f[j] by {
            if i < rest.len() && j < rest.len() {
                assert(f[i] == found_ids(rest)[i] && f[j] == found_ids(rest)[j]);
            } else if i < rest.len() {
                assert(f[i] == rest[i].0);
            } else if j < rest.len() {
                assert(f[j] == rest[j].0);
            }
        }
    }
}

/// The capabilities in `caps` of type `t`, by reference.
fn refs_of_type<'a>(caps: &'a Vec<Capability>, t: &str) -> (r: Vec<&'a Capability>)
    ensures
        derefs(r@) == of_type(caps@, t@),
{
    let mut out: Vec<&Capability> = Vec::new();
    let mut j: usize = 0;
    while j < caps.len()
        invariant
            j <= caps@.len(),
            derefs(out@) == of_type(caps@.take(j as int), t@),
        decreases caps@.len() - j,
    {
        let c = &caps[j];
        proof {
            assert(caps@.take(j + 1) =~= caps@.take(j as int).push(*c));
            caps@.take(j as int).lemma_filter_push(*c, type_is(t@));
        }
        if str_eq(c.capability_type.as_str(), t) {
            let ghost before = out@;
            out.push(c);
            assert(derefs(out@) =~= derefs(before).push(*c));
        }
        j += 1;
    }
    assert(caps@.take(caps@.len() as int) =~= caps@);
    out
}

/// Gives every capability of type `t` the status `status`, updated at `ts`.
fn set_status_of_type(caps: &mut Vec<Capability>, t: &str, status: CapabilityStatus, ts: u64)
    ensures
        final(caps)@ == with_status(old(caps)@, t@, status, ts),
{
    let ghost start = caps@;
    let mut j: usize = 0;
    while j < caps.len()
        invariant
            j <= caps@.len(),
            caps@.len() == start.len(),
            forall|k: int| 0 <= k < j ==> caps@[k] == with_status(start, t@, status, ts)[k],
            forall|k: int| j <= k < caps@.len() ==> caps@[k] == start[k],
        decreases caps@.len() - j,
    {
        if str_eq(caps[j].capability_type.as_str(), t) {
            caps[j].status = status;
            caps[j].last_updated = ts;
        }
        j += 1;
    }
    assert(caps@ =~= with_status(start, t@, status, ts));
}

/// Gives every capability of type `t` the pricing `pricing`, updated at `ts`.
fn set_pricing_of_type(caps: &mut Vec<Capability>, t: &str, pricing: &PricingModel, ts: u64)
    ensures
        final(caps)@ == with_pricing(old(caps)@, t@, *pricing, ts),
{
    let ghost start = caps@;
    let mut j: usize = 0;
    while j < caps.len()
        invariant
            j <= caps@.len(),
            caps@.len() == start.len(),
            forall|k: int| 0 <= k < j ==> caps@[k] == with_pricing(start, t@, *pricing, ts)[k],
            forall|k: int| j <= k < caps@.len() ==> caps@[k] == start[k],
        decreases caps@.len() - j,
    {
        if str_eq(caps[j].capability_type.as_str(), t) {
            caps[j].pricing = pricing.duplicate();
            caps[j].last_updated = ts;
        }
        j += 1;
    }
    assert(caps@ =~= with_pricing(start, t@, *pricing, ts));
}

impl CapabilityRegistryState {
    /// The invariant: both maps keep their keys distinct, and the index
    /// lists a device at most once under each type.
    pub open spec fn wf(&self) -> bool {
        &&& self.device_capabilities.wf()
        &&& self.capability_index.wf()
        &&& forall|t: Seq<char>| #[trigger] self.index().contains_key(t) ==> self.index()[t].no_duplicates()
    }

    /// The capabilities of each device.
    pub open spec fn devices(&self) -> Map<Seq<u8>, Seq<Capability>> {
        self.device_capabilities@.map_values(|v: Vec<Capability>| v@)
    }

    /// The devices listed for each capability type.
    pub open spec fn index(&self) -> Map<Seq<char>, Seq<[u8; 32]>> {
        self.capability_index@.map_values(|v: Vec<[u8; 32]>| v@)
    }

    /// The capabilities of device `id`, none where it registered none.
    pub open spec fn caps_of(&self, id: Seq<u8>) -> Seq<Capability> {
        if self.devices().contains_key(id) {
            self.devices()[id]
        } else {
            Seq::empty()
        }
    }

    /// The devices listed for type `t`, none where no device offers it.
    pub open spec fn listed(&self, t: Seq<char>) -> Seq<[u8; 32]> {
        if self.index().contains_key(t) {
            self.index()[t]
        } else {
            Seq::empty()
        }
    }

    pub fn new(admin: [u8; 32]) -> (s: Self)
        ensures
            s.wf(),
            s.admin == admin,
            s.devices() == Map::<Seq<u8>, Seq<Capability>>::empty(),
            s.index() == Map::<Seq<char>, Seq<[u8; 32]>>::empty(),
    {
        let s = CapabilityRegistryState {
            device_capabilities: KeyMap::new(),
            capability_index: KeyMap::new(),
            admin,
        };
        assert(s.devices() =~= Map::<Seq<u8>, Seq<Capability>>::empty());
        assert(s.index() =~= Map::<Seq<char>, Seq<[u8; 32]>>::empty());
        s
    }

    /// Lists `device_id` in the index under the type `t`, once.
    fn index_device(&mut self, t: &String, device_id: [u8; 32])
        requires
            old(self).wf(),
        ensures
            final(self).wf(),
            final(self).device_capabilities == old(self).device_capabilities,
            final(self).admin == old(self).admin,
            final(self).index() == old(self).index().insert(
                t@,
                listed_after(old(self).listed(t@), device_id, true),
            ),
    {
        match self.capability_index.find(t) {
            Some(i) => {
                let ghost before = self.capability_index;
                proof {
                    before.lemma_entry(i as int);
                }
                push_addr_once(self.capability_index.value_mut_at(i), device_id);
                proof {
                    KeyMap::lemma_set_at(before, self.capability_index, i as int);
                    lemma_listed_after_no_duplicates(old(self).listed(t@), device_id, true);
                }
                assert(self.index() =~= old(self).index().insert(
                    t@,
                    listed_after(old(self).listed(t@), device_id, true),
                ));
            },
            None => {
                let mut ids: Vec<[u8; 32]> = Vec::new();
                ids.push(device_id);
                self.capability_index.insert(t.clone(), ids);
                proof {
                    lemma_listed_after_no_duplicates(old(self).listed(t@), device_id, true);
                }
                assert(self.index() =~= old(self).index().insert(
                    t@,
                    listed_after(old(self).listed(t@), device_id, true),
                ));
            },
        }
    }

    /// Adds `capabilities` to those of `device_id` and lists the device
    /// under each of their types where it is not listed yet.
    pub fn register_capabilities(&mut self, caller: [u8; 32], device_id: [u8; 32], capabilities: Vec<Capability>)
        requires
            old(self).wf(),
            capabilities@.len() > 0,
        ensures
            final(self).wf(),
            final(self).admin == old(self).admin,
            final(self).devices() == old(self).devices().insert(
                device_id@,
                old(self).caps_of(device_id@) + capabilities@,
            ),
            final(self).index() == index_after(old(self).index(), device_id, types_of(capabilities@)),
    {
        let mut capabilities = capabilities;
        let ghost types = types_of(capabilities@);
        let mut j: usize = 0;
        while j < capabilities.len()
            invariant
                self.wf(),
                j <= capabilities@.len(),
                types == types_of(capabilities@),
                self.device_capabilities == old(self).device_capabilities,
                self.admin == old(self).admin,
                self.index() == index_after(old(self).index(), device_id, types.take(j as int)),
            decreases capabilities@.len() - j,
        {
            let ghost before = self.index();
            let ghost tj = capabilities@[j as int].capability_type@;
            self.index_device(&capabilities[j].capability_type, device_id);
            proof {
                let done = types.take(j as int);
                assert(types.take(j + 1) =~= done.push(tj));
                assert forall|t: Seq<char>| #[trigger] done.push(tj).contains(t) <==> done.contains(t) || t == tj by {
                    if done.push(tj).contains(t) {
                        let k = choose|k: int| 0 <= k < done.push(tj).len() && done.push(tj)[k] == t;
                        if k < done.len() {
                            assert(done[k] == t);
                        }
                    }
                    if done.contains(t) {
                        let k = choose|k: int| 0 <= k < done.len() && done[k] == t;
                        assert(done.push(tj)[k] == t);
                    }
                    if t == tj {
                        assert(done.push(tj)[done.len() as int] == t);
                    }
                }
                let target = index_after(old(self).index(), device_id, types.take(j + 1));
                let base = if old(self).index().contains_key(tj) {
                    old(self).index()[tj]
                } else {
                    Seq::empty()
                };
                lemma_listed_after_twice(base, device_id, done.contains(tj));
                assert(self.index()[tj] == target[tj]);
                assert(self.index() =~= target);
            }
            j += 1;
        }
        assert(types.take(capabilities@.len() as int) =~= types);
        let ghost added = capabilities@;
        match self.device_capabilities.find(&device_id) {
            Some(i) => {
                let ghost before = self.device_capabilities;
                proof {
                    before.lemma_entry(i as int);
                }
                self.device_capabilities.value_mut_at(i).append(&mut capabilities);
                proof {
                    KeyMap::lemma_set_at(before, self.device_capabilities, i as int);
                }
            },
            None => {
                self.device_capabilities.insert(device_id, capabilities);
            },
        }
        assert(self.devices() =~= old(self).devices().insert(
            device_id@,
            old(self).caps_of(device_id@) + added,
        ));
    }

    /// The devices that offer capabilities of type `capability_type`, in
    /// the order of the index, each with those capabilities.
    pub fn find_by_capability(&self, capability_type: &str) -> (r: Vec<([u8; 32], Vec<&Capability>)>)
        requires
            self.wf(),
        ensures
            found(r@) == search(self.listed(capability_type@), self.devices(), capability_type@),
            forall|i: int, j: int| 0 <= i < j < r@.len() ==> r@[i].0 != r@[j].0,
    {
        proof {
            lemma_search_no_duplicates(self.listed(capability_type@), self.devices(), capability_type@);
        }
        let key = capability_type.to_owned();
        let ids = match self.capability_index.get(&key) {
            Some(ids) => ids,
            None => {
                let none: Vec<([u8; 32], Vec<&Capability>)> = Vec::new();
                assert(found(none@) =~= Seq::empty());
                return none;
            },
        };
        let mut out: Vec<([u8; 32], Vec<&Capability>)> = Vec::new();
        assert(found(out@) =~= search(ids@.take(0), self.devices(), capability_type@));
        let mut k: usize = 0;
        while k < ids.len()
            invariant
                self.wf(),
                k <= ids@.len(),
                ids@ == self.listed(capability_type@),
                found(out@) == search(ids@.take(k as int), self.devices(), capability_type@),
            decreases ids@.len() - k,
        {
            let id = &ids[k];
            proof {
                assert(ids@.take(k + 1).drop_last() =~= ids@.take(k as int));
                assert(ids@.take(k + 1).last() == *id);
            }
            match self.device_capabilities.get(id) {
                Some(caps) => {
                    let matching = refs_of_type(caps, capability_type);
                    if matching.len() > 0 {
                        let ghost before = out@;
                        out.push((*id, matching));
                        assert(found(out@) =~= found(before).push((*id, derefs(matching@))));
                    }
                },
                None => {},
            }
            k += 1;
        }
        assert(ids@.take(ids@.len() as int) =~= ids@);
        proof {
            let f = found_ids(found(out@));
            assert forall|i: int, j: int| 0 <= i < j < out@.len() implies out@[i].0 != out@[j].0 by {
                assert(f[i] == out@[i].0 && f[j] == out@[j].0);
            }
        }
        out
    }

    /// The capabilities of `device_id`, in the order registered.
    pub fn capabilities_of(&self, device_id: &[u8; 32]) -> (r: Vec<&Capability>)
        requires
            self.wf(),
        ensures
            derefs(r@) == self.caps_of(device_id@),
    {
        let mut out: Vec<&Capability> = Vec::new();
        match self.device_capabilities.get(device_id) {
            Some(caps) => {
                let mut j: usize = 0;
                while j < caps.len()
                    invariant
                        j <= caps@.len(),
                        derefs(out@) == caps@.take(j as int),
                    decreases caps@.len() - j,
                {
                    let ghost before = out@;
                    out.push(&caps[j]);
                    assert(derefs(out@) =~= derefs(before).push(caps@[j as int]));
                    assert(caps@.take(j + 1) =~= caps@.take(j as int).push(caps@[j as int]));
                    j += 1;
                }
                assert(caps@.take(caps@.len() as int) =~= caps@);
            },
            None => {
                assert(derefs(out@) =~= Seq::empty());
            },
        }
        out
    }

    /// Whether `device_id` offers a capability of type `capability_type`.
    pub fn has_capability(&self, device_id: &[u8; 32], capability_type: &str) -> (r: bool)
        requires
            self.wf(),
        ensures
            r == offers(self.caps_of(device_id@), capability_type@),
    {
        match self.device_capabilities.get(device_id) {
            Some(caps) => {
                let mut j: usize = 0;
                while j < caps.len()
                    invariant
                        j <= caps@.len(),
                        caps@ == self.caps_of(device_id@),
                        forall|k: int| 0 <= k < j ==> caps@[k].capability_type@ != capability_type@,
                    decreases caps@.len() - j,
                {
                    if str_eq(caps[j].capability_type.as_str(), capability_type) {
                        return true;
                    }
                    j += 1;
                }
                false
            },
            None => false,
        }
    }

    /// Sets the status of the device's capabilities of the given type, at
    /// `timestamp`; the device must offer that type.
    pub fn update_status(
        &mut self,
        caller: [u8; 32],
        device_id: [u8; 32],
        capability_type: String,
        new_status: CapabilityStatus,
        timestamp: u64,
    )
        requires
            old(self).wf(),
            offers(old(self).caps_of(device_id@), capability_type@),
        ensures
            final(self).wf(),
            final(self).admin == old(self).admin,
            final(self).capability_index == old(self).capability_index,
            final(self).devices() == old(self).devices().insert(
                device_id@,
                with_status(old(self).caps_of(device_id@), capability_type@, new_status, timestamp),
            ),
    {
        let i = match self.device_capabilities.find(&device_id) {
            Some(i) => i,
            None => {
                return ;
            },
        };
        let ghost before = self.device_capabilities;
        proof {
            before.lemma_entry(i as int);
        }
        set_status_of_type(
            self.device_capabilities.value_mut_at(i),
            capability_type.as_str(),
            new_status,
            timestamp,
        );
        proof {
            KeyMap::lemma_set_at(before, self.device_capabilities, i as int);
        }
        assert(self.devices() =~= old(self).devices().insert(
            device_id@,
            with_status(old(self).caps_of(device_id@), capability_type@, new_status, timestamp),
        ));
        assert(self.index() =~= old(self).index());
    }

    /// Sets the pricing of the device's capabilities of the given type, at
    /// `timestamp`; the device must offer that type.
    pub fn set_pricing(
        &mut self,
        caller: [u8; 32],
        device_id: [u8; 32],
        capability_type: String,
        pricing: PricingModel,
        timestamp: u64,
    )
        requires
            old(self).wf(),
            offers(old(self).caps_of(device_id@), capability_type@),
        ensures
            final(self).wf(),
            final(self).admin == old(self).admin,
            final(self).capability_index == old(self).capability_index,
            final(self).devices() == old(self).devices().insert(
                device_id@,
                with_pricing(old(self).caps_of(device_id@), capability_type@, pricing, timestamp),
            ),
    {
        let i = match self.device_capabilities.find(&device_id) {
            Some(i) => i,
            None => {
                return ;
            },
        };
        let ghost before = self.device_capabilities;
        proof {
            before.lemma_entry(i as int);
        }
        set_pricing_of_type(
            self.device_capabilities.value_mut_at(i),
            capability_type.as_str(),
            &pricing,
            timestamp,
        );
        proof {
            KeyMap::lemma_set_at(before, self.device_capabilities, i as int);
        }
        assert(self.devices() =~= old(self).devices().insert(
            device_id@,
            with_pricing(old(self).caps_of(device_id@), capability_type@, pricing, timestamp),
        ));
        assert(self.index() =~= old(self).index());
    }
}

/// A device that registers a capability type offers it afterwards and is
/// listed under it: a search for that type can find it.
pub proof fn law_registered_type_is_offered(
    before: CapabilityRegistryState,
    after: CapabilityRegistryState,
    device_id: [u8; 32],
    capabilities: Seq<Capability>,
    t: Seq<char>,
)
    requires
        after.devices() == before.devices().insert(device_id@, before.caps_of(device_id@) + capabilities),
        after.index() == index_after(before.index(), device_id, types_of(capabilities)),
        types_of(capabilities).contains(t),
    ensures
        offers(after.caps_of(device_id@), t),
        after.listed(t).contains(device_id),
{
    let k = choose|k: int| 0 <= k < types_of(capabilities).len() && types_of(capabilities)[k] == t;
    let all = before.caps_of(device_id@) + capabilities;
    assert(all[before.caps_of(device_id@).len() + k] == capabilities[k]);
    let base = if before.index().contains_key(t) {
        before.index()[t]
    } else {
        Seq::empty()
    };
    if !base.contains(device_id) {
        assert(base.push(device_id)[base.len() as int] == device_id);
    }
}

} // verus!
