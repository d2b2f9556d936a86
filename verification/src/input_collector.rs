//! The input reconciler: the registry of currently attached input devices
//! and the set-difference reconciliation pass that keeps it in line with
//! fresh enumeration results.
//!
//! The registry maps each attached device to the reactor-registration
//! handle of its driver.  One pass snapshots the registered keys, diffs
//! them against a fresh enumeration, and then applies the outcome of each
//! driver construction: newly enumerated devices are registered, vanished
//! devices are deregistered, and a device present before and after is left
//! completely untouched.  Driver construction itself is outside work; its
//! per-device outcome is handed back in and every decision about it is
//! verified here.

use vstd::map::*;
use vstd::prelude::*;

use crate::udev::{device_views, record_views, spec_input_devices};
use crate::udev::{DeviceId, DeviceInfo, Udev, UdevDevice};

verus! {

/// Handle of a reactor registration, as issued by the event dispatcher.
pub type EventHandlerId = u64;

/// The map an association list of registry entries denotes: later entries
/// win, though the registry keeps its keys distinct anyway.
pub open spec fn registry_map(s: Seq<(DeviceId, EventHandlerId)>) -> Map<DeviceId, EventHandlerId>
    decreases s.len(),
{
    if s.len() == 0 {
        Map::empty()
    } else {
        registry_map(s.drop_last()).insert(s.last().0, s.last().1)
    }
}

/// Whether the entries of an association list have pairwise distinct keys.
pub open spec fn distinct_keys(s: Seq<(DeviceId, EventHandlerId)>) -> bool {
    forall|i: int, j: int| 0 <= i < j < s.len() ==> s[i].0 != s[j].0
}

/// A key is in the denoted map exactly when some entry carries it.
proof fn lemma_registry_map_dom(s: Seq<(DeviceId, EventHandlerId)>)
    ensures
        forall|k: DeviceId|
            #[trigger] registry_map(s).dom().contains(k) <==> (exists|i: int|
                0 <= i < s.len() && #[trigger] s[i].0 == k),
    decreases s.len(),
{
    if s.len() > 0 {
        lemma_registry_map_dom(s.drop_last());
        assert forall|k: DeviceId| #[trigger] registry_map(s).dom().contains(k) implies (exists|
            i: int,
        |
            0 <= i < s.len() && #[trigger] s[i].0 == k) by {
            if k == s.last().0 {
                assert(s[s.len() - 1].0 == k);
            } else {
                assert(registry_map(s.drop_last()).dom().contains(k));
                let i = choose|i: int| 0 <= i < s.drop_last().len() && #[trigger] s.drop_last()[i].0
                    == k;
                assert(s.drop_last()[i] == s[i]);
                assert(s[i].0 == k);
            }
        }
        assert forall|k: DeviceId|
            (exists|i: int| 0 <= i < s.len() && #[trigger] s[i].0 == k) implies #[trigger] registry_map(
            s,
        ).dom().contains(k) by {
            let i = choose|i: int| 0 <= i < s.len() && #[trigger] s[i].0 == k;
            if i < s.len() - 1 {
                assert(s.drop_last()[i] == s[i]);
                assert(s.drop_last()[i].0 == k);
                assert(registry_map(s.drop_last()).dom().contains(k));
            }
        }
    }
}

/// With distinct keys, the denoted map sends each entry's key to that
/// entry's handle.
proof fn lemma_registry_map_get(s: Seq<(DeviceId, EventHandlerId)>, i: int)
    requires
        distinct_keys(s),
        0 <= i < s.len(),
    ensures
        registry_map(s).dom().contains(s[i].0),
        registry_map(s)[s[i].0] == s[i].1,
    decreases s.len(),
{
    if i == s.len() - 1 {
    } else {
        assert(s.drop_last()[i] == s[i]);
        lemma_registry_map_get(s.drop_last(), i);
        assert(s[s.len() - 1].0 != s[i].0);
    }
}

/// With distinct keys, removing the entry at `i` removes exactly its key
/// from the denoted map.
proof fn lemma_registry_map_remove(s: Seq<(DeviceId, EventHandlerId)>, i: int)
    requires
        distinct_keys(s),
        0 <= i < s.len(),
    ensures
        registry_map(s.remove(i)) =~= registry_map(s).remove(s[i].0),
    decreases s.len(),
{
    lemma_registry_map_dom(s.drop_last());
    if i == s.len() - 1 {
        assert(s.remove(i) =~= s.drop_last());
        assert(!registry_map(s.drop_last()).dom().contains(s[i].0));
        assert(registry_map(s.drop_last()).insert(s[i].0, s[i].1).remove(s[i].0) =~= registry_map(
            s.drop_last(),
        ));
    } else {
        assert(s.drop_last()[i] == s[i]);
        lemma_registry_map_remove(s.drop_last(), i);
        assert(s.remove(i).drop_last() =~= s.drop_last().remove(i));
        assert(s.remove(i).last() == s.last());
        assert(s.last().0 != s[i].0);
        assert(registry_map(s.remove(i)) == registry_map(s.drop_last().remove(i)).insert(
            s.last().0,
            s.last().1,
        ));
    }
}

/// Whether some device among the first `n` of `added` whose driver outcome
/// is a handle has the identity `k`.
pub open spec fn successfully_added_upto(
    added: Seq<DeviceId>,
    outcomes: Seq<Option<EventHandlerId>>,
    n: int,
    k: DeviceId,
) -> bool {
    exists|i: int| 0 <= i < n && #[trigger] added[i] == k && outcomes[i] is Some
}

/// Whether some device among `added` whose driver outcome is a handle has
/// the identity `k`.
pub open spec fn successfully_added(
    added: Seq<DeviceId>,
    outcomes: Seq<Option<EventHandlerId>>,
    k: DeviceId,
) -> bool {
    successfully_added_upto(added, outcomes, added.len() as int, k)
}

/// Extending the prefix by one element adds exactly that element's
/// successful registration.
proof fn lemma_successfully_added_step(
    added: Seq<DeviceId>,
    outcomes: Seq<Option<EventHandlerId>>,
    i: int,
)
    requires
        0 <= i < added.len(),
        outcomes.len() == added.len(),
    ensures
        forall|k: DeviceId|
            #[trigger] successfully_added_upto(added, outcomes, i + 1, k) <==> (
            successfully_added_upto(added, outcomes, i, k) || (added[i] == k
                && outcomes[i] is Some)),
{
    assert forall|k: DeviceId| #[trigger] successfully_added_upto(added, outcomes, i + 1, k)
        implies (successfully_added_upto(added, outcomes, i, k) || (added[i] == k
        && outcomes[i] is Some)) by {
        let l = choose|l: int| 0 <= l < i + 1 && #[trigger] added[l] == k && outcomes[l] is Some;
        if l < i {
            assert(successfully_added_upto(added, outcomes, i, k));
        }
    }
}

/// The two halves of one reconciliation decision: the devices to build
/// drivers for and register, and the devices to deregister.
pub struct ScanPlan {
    pub added: Vec<DeviceInfo>,
    pub removed: Vec<DeviceInfo>,
}

/// What a correct plan says about an old key set and a new key set: the
/// additions are exactly the new keys not yet registered, the removals
/// exactly the registered keys no longer enumerated, each listed once.
pub open spec fn plan_is_for(
    added: Seq<DeviceId>,
    removed: Seq<DeviceId>,
    old_keys: Set<DeviceId>,
    new_keys: Set<DeviceId>,
) -> bool {
    &&& added.no_duplicates()
    &&& removed.no_duplicates()
    &&& added.to_set() == new_keys.difference(old_keys)
    &&& removed.to_set() == old_keys.difference(new_keys)
}

/// The input reconciler.  It owns the registry; no other component mutates
/// it, and the single-threaded reactor runs at most one pass at a time.
pub struct InputCollector {
    udev: Udev,
    current_devices: Vec<(DeviceInfo, EventHandlerId)>,
}

impl InputCollector {
    /// The registry entries, in insertion order.
    pub closed spec fn entries(&self) -> Seq<(DeviceId, EventHandlerId)> {
        self.current_devices@.map_values(|e: (DeviceInfo, EventHandlerId)| (e.0@, e.1))
    }

    /// The registry as a map from device identity to registration handle.
    pub open spec fn registry(&self) -> Map<DeviceId, EventHandlerId> {
        registry_map(self.entries())
    }

    /// The set of currently registered device identities.
    pub open spec fn registered(&self) -> Set<DeviceId> {
        self.registry().dom()
    }

    /// Well-formedness: at most one handle per device.
    pub open spec fn wf(&self) -> bool {
        distinct_keys(self.entries())
    }

    /// Constructs a new `InputCollector` with an empty registry.
    pub fn new(udev: Udev) -> (r: InputCollector)
        ensures
            r.wf(),
            r.registry() =~= Map::<DeviceId, EventHandlerId>::empty(),
    {
        InputCollector { udev, current_devices: Vec::new() }
    }

    /// The position of `device` in the entry list, if it is registered.
    fn find_device(&self, device: &DeviceInfo) -> (r: Option<usize>)
        ensures
            match r {
                Some(i) => i < self.entries().len() && self.entries()[i as int].0 == device@,
                None => forall|i: int| 0 <= i < self.entries().len() ==> self.entries()[i].0 != device@,
            },
    {
        let mut i: usize = 0;
        while i < self.current_devices.len()
            invariant
                0 <= i <= self.entries().len(),
                forall|j: int| 0 <= j < i ==> self.entries()[j].0 != device@,
            decreases self.entries().len() - i,
        {
            if self.current_devices[i].0 == *device {
                return Some(i);
            }
            i = i + 1;
        }
        None
    }

    /// Whether `device` is currently registered.
    pub fn is_registered(&self, device: &DeviceInfo) -> (r: bool)
        ensures
            r == self.registered().contains(device@),
    {
        proof {
            lemma_registry_map_dom(self.entries());
        }
        self.find_device(device).is_some()
    }

    /// The registration handle of `device`, if it is registered.
    pub fn get_handle(&self, device: &DeviceInfo) -> (r: Option<EventHandlerId>)
        requires
            self.wf(),
        ensures
            match r {
                Some(id) => self.registered().contains(device@) && id == self.registry()[device@],
                None => !self.registered().contains(device@),
            },
    {
        proof {
            lemma_registry_map_dom(self.entries());
        }
        match self.find_device(device) {
            Some(i) => {
                proof {
                    lemma_registry_map_get(self.entries(), i as int);
                }
                Some(self.current_devices[i].1)
            },
            None => None,
        }
    }

    /// A snapshot of the registered devices, in registry order.
    pub fn collect_current_devices(&self) -> (keys: Vec<DeviceInfo>)
        ensures
            keys@.len() == self.entries().len(),
            forall|j: int| 0 <= j < keys@.len() ==> keys@[j]@ == self.entries()[j].0,
    {
        let mut keys: Vec<DeviceInfo> = Vec::new();
        let mut i: usize = 0;
        while i < self.current_devices.len()
            invariant
                0 <= i <= self.entries().len(),
                keys@.len() == i,
                forall|j: int| 0 <= j < i ==> keys@[j]@ == self.entries()[j].0,
            decreases self.entries().len() - i,
        {
            keys.push(self.current_devices[i].0.clone());
            i = i + 1;
        }
        keys
    }

    /// Registers a newly found device.  `driver` is the outcome of the
    /// outside driver construction and reactor registration for it: a
    /// handle on success, `None` when the driver could not be initialized,
    /// in which case the device is skipped until the next pass.
    pub fn handle_new_device(&mut self, device: DeviceInfo, driver: Option<EventHandlerId>)
        requires
            old(self).wf(),
            !old(self).registered().contains(device@),
        ensures
            final(self).wf(),
            match driver {
                Some(id) => final(self).registry() =~= old(self).registry().insert(device@, id),
                None => final(self).registry() == old(self).registry(),
            },
    {
        proof {
            lemma_registry_map_dom(self.entries());
        }
        match driver {
            Some(id) => {
                let ghost pre = self.entries();
                self.current_devices.push((device, id));
                proof {
                    assert(self.entries() =~= pre.push((device@, id)));
                    assert(self.entries().drop_last() =~= pre);
                }
            },
            None => {
                // The failure was reported at the driver; the device stays
                // unregistered and is retried on the next scan.
            },
        }
    }

    /// Deregisters a lost device and hands back its registration handle so
    /// the enclosing process can withdraw the driver from the reactor.
    /// `None` means the device was never registered, which correct
    /// bookkeeping does not produce; the pass carries on regardless.
    pub fn handle_lost_device(&mut self, device: &DeviceInfo) -> (r: Option<EventHandlerId>)
        requires
            old(self).wf(),
        ensures
            final(self).wf(),
            match r {
                Some(id) => {
                    &&& old(self).registered().contains(device@)
                    &&& id == old(self).registry()[device@]
                    &&& final(self).registry() =~= old(self).registry().remove(device@)
                },
                None => {
                    &&& !old(self).registered().contains(device@)
                    &&& final(self).registry() == old(self).registry()
                },
            },
    {
        proof {
            lemma_registry_map_dom(self.entries());
        }
        match self.find_device(device) {
            Some(i) => {
                proof {
                    lemma_registry_map_get(self.entries(), i as int);
                    lemma_registry_map_remove(self.entries(), i as int);
                }
                let ghost pre = self.entries();
                let entry = self.current_devices.remove(i);
                proof {
                    assert(self.entries() =~= pre.remove(i as int));
                }
                Some(entry.1)
            },
            None => None,
        }
    }

    /// Diffs a fresh list of enumerated devices against the registry and
    /// decides one reconciliation pass: which devices to build drivers for
    /// and which to deregister.  Duplicates in the list collapse; devices
    /// present before and after appear in neither half of the plan.
    pub fn plan_scan(&self, new_devices: &Vec<DeviceInfo>) -> (plan: ScanPlan)
        requires
            self.wf(),
        ensures
            plan_is_for(
                device_views(plan.added@),
                device_views(plan.removed@),
                self.registered(),
                device_views(new_devices@).to_set(),
            ),
    {
        let mut added: Vec<DeviceInfo> = Vec::new();
        let mut i: usize = 0;
        while i < new_devices.len()
            invariant
                0 <= i <= new_devices@.len(),
                forall|x: int, y: int|
                    0 <= x < y < added@.len() ==> (#[trigger] added@[x])@ != (#[trigger] added@[y])@,
                forall|x: int|
                    #![trigger added@[x]]
                    0 <= x < added@.len() ==> !self.registered().contains(added@[x]@),
                forall|x: int|
                    #![trigger added@[x]]
                    0 <= x < added@.len() ==> exists|j: int|
                        #![trigger new_devices@[j]]
                        0 <= j < i && added@[x]@ == new_devices@[j]@,
                forall|j: int|
                    #![trigger new_devices@[j]]
                    0 <= j < i ==> self.registered().contains(new_devices@[j]@) || (exists|x: int|
                        #![trigger added@[x]]
                        0 <= x < added@.len() && added@[x]@ == new_devices@[j]@),
            decreases new_devices@.len() - i,
        {
            let d = &new_devices[i];
            let registered_already = self.is_registered(d);
            let listed_already = vec_contains_device(&added, d);
            if !registered_already && !listed_already {
                let ghost prev = added@;
                added.push(d.clone());
                proof {
                    assert(added@[added@.len() - 1]@ == new_devices@[i as int]@);
                    assert forall|x: int, y: int|
                        0 <= x < y < added@.len() implies (#[trigger] added@[x])@
                        != (#[trigger] added@[y])@ by {
                        if y == added@.len() - 1 {
                            assert(added@[x] == prev[x]);
                        }
                    }
                    assert forall|j2: int|
                        #![trigger new_devices@[j2]]
                        0 <= j2 < i + 1 implies self.registered().contains(new_devices@[j2]@) || (
                    exists|x: int|
                        #![trigger added@[x]]
                        0 <= x < added@.len() && added@[x]@ == new_devices@[j2]@) by {
                        if j2 == i {
                            assert(added@[added@.len() - 1]@ == new_devices@[j2]@);
                        } else if !self.registered().contains(new_devices@[j2]@) {
                            let x = choose|x: int|
                                #![trigger prev[x]]
                                0 <= x < prev.len() && prev[x]@ == new_devices@[j2]@;
                            assert(added@[x] == prev[x]);
                            assert(added@[x]@ == new_devices@[j2]@);
                        }
                    }
                }
            } else {
                proof {
                    assert(d@ == new_devices@[i as int]@);
                }
            }
            i = i + 1;
        }
        let mut removed: Vec<DeviceInfo> = Vec::new();
        let mut j: usize = 0;
        while j < self.current_devices.len()
            invariant
                0 <= j <= self.entries().len(),
                self.wf(),
                forall|x: int, y: int|
                    0 <= x < y < removed@.len() ==> (#[trigger] removed@[x])@
                        != (#[trigger] removed@[y])@,
                forall|x: int|
                    #![trigger removed@[x]]
                    0 <= x < removed@.len() ==> exists|m: int|
                        #![trigger self.entries()[m]]
                        0 <= m < j && removed@[x]@ == self.entries()[m].0,
                forall|x: int|
                    #![trigger removed@[x]]
                    0 <= x < removed@.len() ==> !(exists|l: int|
                        #![trigger new_devices@[l]]
                        0 <= l < new_devices@.len() && new_devices@[l]@ == removed@[x]@),
                forall|m: int|
                    #![trigger self.entries()[m]]
                    0 <= m < j ==> (exists|l: int|
                        #![trigger new_devices@[l]]
                        0 <= l < new_devices@.len() && new_devices@[l]@ == self.entries()[m].0) || (
                    exists|x: int|
                        #![trigger removed@[x]]
                        0 <= x < removed@.len() && removed@[x]@ == self.entries()[m].0),
            decreases self.entries().len() - j,
        {
            let d = &self.current_devices[j].0;
            proof {
                assert(d@ == self.entries()[j as int].0);
            }
            if !vec_contains_device(new_devices, d) {
                let ghost prev = removed@;
                removed.push(d.clone());
                proof {
                    assert(removed@[removed@.len() - 1]@ == self.entries()[j as int].0);
                    assert forall|x: int, y: int|
                        0 <= x < y < removed@.len() implies (#[trigger] removed@[x])@
                        != (#[trigger] removed@[y])@ by {
                        if y == removed@.len() - 1 {
                            assert(removed@[x] == prev[x]);
                            let m = choose|m: int|
                                #![trigger self.entries()[m]]
                                0 <= m < j && prev[x]@ == self.entries()[m].0;
                            assert(self.entries()[m].0 != self.entries()[j as int].0);
                        }
                    }
                    assert forall|m: int|
                        #![trigger self.entries()[m]]
                        0 <= m < j + 1 implies (exists|l: int|
                        #![trigger new_devices@[l]]
                        0 <= l < new_devices@.len() && new_devices@[l]@ == self.entries()[m].0) || (
                    exists|x: int|
                        #![trigger removed@[x]]
                        0 <= x < removed@.len() && removed@[x]@ == self.entries()[m].0) by {
                        if m == j {
                            assert(removed@[removed@.len() - 1]@ == self.entries()[m].0);
                        } else if !(exists|l: int|
                            #![trigger new_devices@[l]]
                            0 <= l < new_devices@.len() && new_devices@[l]@ == self.entries()[m].0) {
                            let x = choose|x: int|
                                #![trigger prev[x]]
                                0 <= x < prev.len() && prev[x]@ == self.entries()[m].0;
                            assert(removed@[x] == prev[x]);
                            assert(removed@[x]@ == self.entries()[m].0);
                        }
                    }
                }
            }
            j = j + 1;
        }
        proof {
            lemma_registry_map_dom(self.entries());
            let added_ids = device_views(added@);
            let removed_ids = device_views(removed@);
            let new_ids = device_views(new_devices@);
            assert forall|x: int| 0 <= x < added@.len() implies #[trigger] added_ids[x]
                == added@[x]@ by {}
            assert forall|x: int| 0 <= x < removed@.len() implies #[trigger] removed_ids[x]
                == removed@[x]@ by {}
            assert forall|x: int| 0 <= x < new_devices@.len() implies #[trigger] new_ids[x]
                == new_devices@[x]@ by {}
            assert(added_ids.no_duplicates());
            assert(removed_ids.no_duplicates());
            assert forall|k: DeviceId| #[trigger] added_ids.to_set().contains(k) implies new_ids.to_set().contains(
                k,
            ) && !self.registered().contains(k) by {
                let x = choose|x: int| 0 <= x < added_ids.len() && added_ids[x] == k;
                let j2 = choose|j2: int|
                    #![trigger new_devices@[j2]]
                    0 <= j2 < new_devices@.len() && added@[x]@ == new_devices@[j2]@;
                assert(new_ids[j2] == k);
                assert(new_ids.contains(k));
            }
            assert forall|k: DeviceId|
                new_ids.to_set().contains(k) && !self.registered().contains(k) implies #[trigger] added_ids.to_set().contains(
                k,
            ) by {
                let j2 = choose|j2: int| 0 <= j2 < new_ids.len() && new_ids[j2] == k;
                let x = choose|x: int|
                    #![trigger added@[x]]
                    0 <= x < added@.len() && added@[x]@ == new_devices@[j2]@;
                assert(added_ids[x] == k);
                assert(added_ids.contains(k));
            }
            assert(added_ids.to_set() =~= new_ids.to_set().difference(self.registered()));
            assert forall|k: DeviceId| #[trigger] removed_ids.to_set().contains(k) implies self.registered().contains(
                k,
            ) && !new_ids.to_set().contains(k) by {
                let x = choose|x: int| 0 <= x < removed_ids.len() && removed_ids[x] == k;
                let m = choose|m: int|
                    #![trigger self.entries()[m]]
                    0 <= m < self.entries().len() && removed@[x]@ == self.entries()[m].0;
                assert(self.registered().contains(k));
                if new_ids.to_set().contains(k) {
                    let l = choose|l: int| 0 <= l < new_ids.len() && new_ids[l] == k;
                    assert(new_devices@[l]@ == removed@[x]@);
                    assert(false);
                }
            }
            assert forall|k: DeviceId|
                self.registered().contains(k) && !new_ids.to_set().contains(k) implies #[trigger] removed_ids.to_set().contains(
                k,
            ) by {
                let m = choose|m: int| 0 <= m < self.entries().len() && #[trigger] self.entries()[m].0
                    == k;
                if exists|l: int|
                    #![trigger new_devices@[l]]
                    0 <= l < new_devices@.len() && new_devices@[l]@ == self.entries()[m].0 {
                    let l = choose|l: int|
                        #![trigger new_devices@[l]]
                        0 <= l < new_devices@.len() && new_devices@[l]@ == self.entries()[m].0;
                    assert(new_ids[l] == k);
                    assert(new_ids.contains(k));
                    assert(false);
                } else {
                    let x = choose|x: int|
                        #![trigger removed@[x]]
                        0 <= x < removed@.len() && removed@[x]@ == self.entries()[m].0;
                    assert(removed_ids[x] == k);
                    assert(removed_ids.contains(k));
                }
            }
            assert(removed_ids.to_set() =~= self.registered().difference(new_ids.to_set()));
        }
        ScanPlan { added, removed }
    }

    /// Re-enumerates input devices from a database snapshot and decides one
    /// reconciliation pass against the registry.  The decision is applied
    /// by `apply_scan` once the enclosing process has built a driver for
    /// each device to be added.
    pub fn scan_devices(&self, snapshot: &Vec<UdevDevice>) -> (plan: ScanPlan)
        requires
            self.wf(),
        ensures
            plan_is_for(
                device_views(plan.added@),
                device_views(plan.removed@),
                self.registered(),
                spec_input_devices(record_views(snapshot@)).to_set(),
            ),
    {
        let new_devices = self.udev.iterate_input_devices(snapshot);
        self.plan_scan(&new_devices)
    }

    /// Applies one reconciliation decision.  `outcomes[i]` is the outcome
    /// of building and registering a driver for `plan.added[i]`: a handle,
    /// or `None` when the driver failed and the device is skipped for this
    /// pass.  Returns the handles of the deregistered devices, for the
    /// enclosing process to withdraw from the reactor.  Devices present
    /// before and after the pass keep their handles untouched.
    pub fn apply_scan(
        &mut self,
        plan: &ScanPlan,
        outcomes: &Vec<Option<EventHandlerId>>,
    ) -> (removed_handles: Vec<EventHandlerId>)
        requires
            old(self).wf(),
            outcomes@.len() == plan.added@.len(),
            device_views(plan.added@).no_duplicates(),
            forall|i: int|
                0 <= i < plan.added@.len() ==> !old(self).registered().contains(
                    #[trigger] plan.added@[i]@,
                ),
            device_views(plan.removed@).no_duplicates(),
            forall|i: int|
                0 <= i < plan.removed@.len() ==> old(self).registered().contains(
                    #[trigger] plan.removed@[i]@,
                ),
        ensures
            final(self).wf(),
            forall|k: DeviceId|
                #[trigger] final(self).registered().contains(k) <==> ((old(self).registered().contains(
                    k,
                ) && !device_views(plan.removed@).contains(k)) || successfully_added(
                    device_views(plan.added@),
                    outcomes@,
                    k,
                )),
            forall|k: DeviceId|
                old(self).registered().contains(k) && !device_views(plan.removed@).contains(k)
                    ==> final(self).registry()[k] == old(self).registry()[k],
            forall|i: int|
                0 <= i < plan.added@.len() && outcomes@[i] is Some ==> final(self).registry()[
                    #[trigger] plan.added@[i]@
                ] == outcomes@[i].unwrap(),
            removed_handles@.len() == plan.removed@.len(),
            forall|i: int|
                0 <= i < plan.removed@.len() ==> removed_handles@[i] == old(self).registry()[
                    #[trigger] plan.removed@[i]@
                ],
            plan.added@.len() == 0 && plan.removed@.len() == 0 ==> final(self).registry()
                == old(self).registry() && removed_handles@.len() == 0,
    {
        let ghost added_ids = device_views(plan.added@);
        let ghost removed_ids = device_views(plan.removed@);
        let mut i: usize = 0;
        while i < plan.added.len()
            invariant
                self.wf(),
                0 <= i <= plan.added@.len(),
                outcomes@.len() == plan.added@.len(),
                added_ids == device_views(plan.added@),
                added_ids.no_duplicates(),
                forall|j: int|
                    0 <= j < added_ids.len() ==> !old(self).registered().contains(
                        #[trigger] added_ids[j],
                    ),
                forall|k: DeviceId|
                    #[trigger] self.registered().contains(k) <==> (old(self).registered().contains(
                        k,
                    ) || successfully_added_upto(added_ids, outcomes@, i as int, k)),
                forall|k: DeviceId|
                    old(self).registered().contains(k) ==> self.registry()[k] == old(
                        self,
                    ).registry()[k],
                forall|j: int|
                    0 <= j < i && outcomes@[j] is Some ==> self.registry()[#[trigger] added_ids[j]]
                        == outcomes@[j].unwrap(),
            decreases plan.added@.len() - i,
        {
            proof {
                assert(!self.registered().contains(added_ids[i as int])) by {
                    if successfully_added_upto(added_ids, outcomes@, i as int, added_ids[i as int]) {
                        let l = choose|l: int|
                            0 <= l < i && #[trigger] added_ids[l] == added_ids[i as int]
                                && outcomes@[l] is Some;
                        assert(false);
                    }
                }
            }
            let oc = outcomes[i];
            let ghost pre = *self;
            self.handle_new_device(plan.added[i].clone(), oc);
            proof {
                lemma_successfully_added_step(added_ids, outcomes@, i as int);
                assert forall|k: DeviceId| #[trigger] self.registered().contains(k) implies (old(
                    self,
                ).registered().contains(k) || successfully_added_upto(
                    added_ids,
                    outcomes@,
                    i + 1,
                    k,
                )) by {
                    if oc is Some && k == added_ids[i as int] {
                        assert(successfully_added_upto(added_ids, outcomes@, i + 1, k));
                    } else {
                        assert(pre.registered().contains(k));
                    }
                }
                assert forall|k: DeviceId|
                    (old(self).registered().contains(k) || successfully_added_upto(
                        added_ids,
                        outcomes@,
                        i + 1,
                        k,
                    )) implies #[trigger] self.registered().contains(k) by {
                    if successfully_added_upto(added_ids, outcomes@, i + 1, k) && !old(
                        self,
                    ).registered().contains(k) && !successfully_added_upto(
                        added_ids,
                        outcomes@,
                        i as int,
                        k,
                    ) {
                        assert(added_ids[i as int] == k && outcomes@[i as int] is Some);
                    }
                }
            }
            i = i + 1;
        }
        let ghost mid = *self;
        proof {
            assert(forall|k: DeviceId|
                #[trigger] mid.registered().contains(k) <==> (old(self).registered().contains(k)
                    || successfully_added(added_ids, outcomes@, k)));
        }
        let mut removed_handles: Vec<EventHandlerId> = Vec::new();
        let mut j: usize = 0;
        while j < plan.removed.len()
            invariant
                self.wf(),
                0 <= j <= plan.removed@.len(),
                removed_ids == device_views(plan.removed@),
                removed_ids.no_duplicates(),
                forall|l: int|
                    0 <= l < removed_ids.len() ==> old(self).registered().contains(
                        #[trigger] removed_ids[l],
                    ),
                forall|k: DeviceId|
                    #[trigger] mid.registered().contains(k) <==> (old(self).registered().contains(
                        k,
                    ) || successfully_added(added_ids, outcomes@, k)),
                forall|k: DeviceId|
                    old(self).registered().contains(k) ==> mid.registry()[k] == old(
                        self,
                    ).registry()[k],
                forall|k: DeviceId|
                    #[trigger] self.registered().contains(k) <==> (mid.registered().contains(k)
                        && !removed_ids.subrange(0, j as int).contains(k)),
                forall|k: DeviceId|
                    self.registered().contains(k) ==> self.registry()[k] == mid.registry()[k],
                removed_handles@.len() == j,
                forall|l: int|
                    0 <= l < j ==> removed_handles@[l] == mid.registry()[#[trigger] removed_ids[l]],
            decreases plan.removed@.len() - j,
        {
            proof {
                assert(mid.registered().contains(removed_ids[j as int]));
                assert(!removed_ids.subrange(0, j as int).contains(removed_ids[j as int])) by {
                    if removed_ids.subrange(0, j as int).contains(removed_ids[j as int]) {
                        let l = choose|l: int|
                            0 <= l < j && #[trigger] removed_ids.subrange(0, j as int)[l]
                                == removed_ids[j as int];
                        assert(removed_ids[l] == removed_ids[j as int]);
                        assert(false);
                    }
                }
                assert(self.registered().contains(removed_ids[j as int]));
            }
            let ghost pre = *self;
            match self.handle_lost_device(&plan.removed[j]) {
                Some(id) => {
                    removed_handles.push(id);
                    proof {
                        assert(id == pre.registry()[removed_ids[j as int]]);
                        assert(id == mid.registry()[removed_ids[j as int]]);
                        assert forall|k: DeviceId| #[trigger] self.registered().contains(k) implies (
                        mid.registered().contains(k) && !removed_ids.subrange(0, j + 1).contains(
                            k,
                        )) by {
                            assert(pre.registered().contains(k));
                            if removed_ids.subrange(0, j + 1).contains(k) {
                                let l = choose|l: int|
                                    0 <= l < j + 1 && #[trigger] removed_ids.subrange(0, j + 1)[l]
                                        == k;
                                assert(removed_ids[l] == k);
                                if l < j {
                                    assert(removed_ids.subrange(0, j as int)[l] == k);
                                    assert(false);
                                } else {
                                    assert(false);
                                }
                            }
                        }
                        assert forall|k: DeviceId|
                            (mid.registered().contains(k) && !removed_ids.subrange(0, j + 1).contains(
                                k,
                            )) implies #[trigger] self.registered().contains(k) by {
                            assert(!removed_ids.subrange(0, j as int).contains(k)) by {
                                if removed_ids.subrange(0, j as int).contains(k) {
                                    let l = choose|l: int|
                                        0 <= l < j && #[trigger] removed_ids.subrange(
                                            0, j as int)[l] == k;
                                    assert(removed_ids.subrange(0, j + 1)[l] == k);
                                    assert(false);
                                }
                            }
                            assert(pre.registered().contains(k));
                            assert(k != removed_ids[j as int]) by {
                                if k == removed_ids[j as int] {
                                    assert(removed_ids.subrange(0, j + 1)[j as int] == k);
                                    assert(false);
                                }
                            }
                        }
                    }
                },
                None => {
                    proof {
                        assert(false);
                    }
                },
            }
            j = j + 1;
        }
        proof {
            assert forall|k: DeviceId| #[trigger] self.registered().contains(k) implies ((old(
                self,
            ).registered().contains(k) && !removed_ids.contains(k)) || successfully_added(
                added_ids,
                outcomes@,
                k,
            )) by {
                assert(removed_ids.subrange(0, removed_ids.len() as int) =~= removed_ids);
            }
            assert forall|k: DeviceId|
                ((old(self).registered().contains(k) && !removed_ids.contains(k))
                    || successfully_added(added_ids, outcomes@, k)) implies #[trigger] self.registered().contains(
                k,
            ) by {
                assert(removed_ids.subrange(0, removed_ids.len() as int) =~= removed_ids);
                if successfully_added(added_ids, outcomes@, k) {
                    let l = choose|l: int|
                        0 <= l < added_ids.len() && #[trigger] added_ids[l] == k
                            && outcomes@[l] is Some;
                    assert(!old(self).registered().contains(k));
                    assert(!removed_ids.contains(k)) by {
                        if removed_ids.contains(k) {
                            let m = choose|m: int|
                                0 <= m < removed_ids.len() && removed_ids[m] == k;
                            assert(old(self).registered().contains(k));
                            assert(false);
                        }
                    }
                    assert(mid.registered().contains(k));
                }
            }
            assert forall|i2: int|
                0 <= i2 < plan.added@.len() && outcomes@[i2] is Some implies self.registry()[
                #[trigger] plan.added@[i2]@
            ] == outcomes@[i2].unwrap() by {
                assert(added_ids[i2] == plan.added@[i2]@);
                assert(successfully_added(added_ids, outcomes@, added_ids[i2]));
                assert(self.registered().contains(added_ids[i2]));
                assert(self.registry()[added_ids[i2]] == mid.registry()[added_ids[i2]]);
            }
            assert forall|i2: int| 0 <= i2 < plan.removed@.len() implies removed_handles@[i2]
                == old(self).registry()[#[trigger] plan.removed@[i2]@] by {
                assert(removed_ids[i2] == plan.removed@[i2]@);
                assert(removed_handles@[i2] == mid.registry()[removed_ids[i2]]);
                assert(old(self).registered().contains(removed_ids[i2]));
            }
            if plan.added@.len() == 0 && plan.removed@.len() == 0 {
                assert forall|k: DeviceId| #[trigger] self.registered().contains(k) <==> old(
                    self,
                ).registered().contains(k) by {
                    if successfully_added(added_ids, outcomes@, k) {
                        let l = choose|l: int|
                            0 <= l < added_ids.len() && #[trigger] added_ids[l] == k
                                && outcomes@[l] is Some;
                        assert(false);
                    }
                    if removed_ids.contains(k) {
                        let l = choose|l: int| 0 <= l < removed_ids.len() && removed_ids[l] == k;
                        assert(false);
                    }
                }
                assert_maps_equal!(self.registry(), old(self).registry(), k => {
                    if self.registered().contains(k) {
                        assert(old(self).registered().contains(k));
                        assert(self.registry()[k] == mid.registry()[k]);
                        assert(mid.registry()[k] == old(self).registry()[k]);
                    }
                    if old(self).registered().contains(k) {
                        assert(self.registered().contains(k));
                    }
                });
            }
        }
        removed_handles
    }
}

/// Law: one reconciliation pass registers only devices that are newly
/// enumerated (in the new set and not the old), deregisters only devices
/// that vanished (in the old set and not the new), and afterwards the
/// registry holds exactly the enumerated devices that either were already
/// registered or whose drivers registered successfully in this pass.
pub proof fn lemma_reconciliation_exact(
    old_keys: Set<DeviceId>,
    new_keys: Set<DeviceId>,
    added: Seq<DeviceId>,
    removed: Seq<DeviceId>,
    outcomes: Seq<Option<EventHandlerId>>,
    final_keys: Set<DeviceId>,
)
    requires
        plan_is_for(added, removed, old_keys, new_keys),
        outcomes.len() == added.len(),
        forall|k: DeviceId|
            #[trigger] final_keys.contains(k) <==> ((old_keys.contains(k) && !removed.contains(k))
                || successfully_added(added, outcomes, k)),
    ensures
        forall|k: DeviceId|
            #[trigger] successfully_added(added, outcomes, k) ==> new_keys.contains(k)
                && !old_keys.contains(k),
        forall|k: DeviceId|
            #[trigger] removed.contains(k) ==> old_keys.contains(k) && !new_keys.contains(k),
        forall|k: DeviceId|
            #[trigger] final_keys.contains(k) <==> (new_keys.contains(k) && (old_keys.contains(k)
                || successfully_added(added, outcomes, k))),
{
    assert forall|k: DeviceId| #[trigger] successfully_added(added, outcomes, k) implies new_keys.contains(
        k,
    ) && !old_keys.contains(k) by {
        let i = choose|i: int| 0 <= i < added.len() && #[trigger] added[i] == k && outcomes[i] is Some;
        assert(added.contains(k));
        assert(added.to_set().contains(k));
    }
    assert forall|k: DeviceId| #[trigger] removed.contains(k) implies old_keys.contains(k)
        && !new_keys.contains(k) by {
        assert(removed.to_set().contains(k));
    }
    assert forall|k: DeviceId| #[trigger] final_keys.contains(k) implies (new_keys.contains(k) && (
    old_keys.contains(k) || successfully_added(added, outcomes, k))) by {
        if old_keys.contains(k) && !removed.contains(k) {
            assert(!removed.to_set().contains(k));
            assert(!old_keys.difference(new_keys).contains(k));
        }
    }
    assert forall|k: DeviceId|
        (new_keys.contains(k) && (old_keys.contains(k) || successfully_added(
            added,
            outcomes,
            k,
        ))) implies #[trigger] final_keys.contains(k) by {
        if old_keys.contains(k) {
            assert(!old_keys.difference(new_keys).contains(k));
            assert(!removed.to_set().contains(k));
            assert(!removed.contains(k));
        }
    }
}

/// Law: a reconciliation pass against an unchanged device set plans no
/// additions and no removals, so applying it performs no registrations or
/// deregistrations and leaves the registry untouched.
pub proof fn lemma_scan_idempotent(
    old_keys: Set<DeviceId>,
    new_keys: Set<DeviceId>,
    added: Seq<DeviceId>,
    removed: Seq<DeviceId>,
)
    requires
        new_keys == old_keys,
        plan_is_for(added, removed, old_keys, new_keys),
    ensures
        added == Seq::<DeviceId>::empty(),
        removed == Seq::<DeviceId>::empty(),
{
    if added.len() > 0 {
        assert(added.contains(added[0]));
        assert(added.to_set().contains(added[0]));
        assert(false);
    }
    if removed.len() > 0 {
        assert(removed.contains(removed[0]));
        assert(removed.to_set().contains(removed[0]));
        assert(false);
    }
    assert(added =~= Seq::<DeviceId>::empty());
    assert(removed =~= Seq::<DeviceId>::empty());
}

/// Whether `device` occurs in `list`, compared by identity.
fn vec_contains_device(list: &Vec<DeviceInfo>, device: &DeviceInfo) -> (r: bool)
    ensures
        r == (exists|j: int| #![trigger list@[j]] 0 <= j < list@.len() && list@[j]@ == device@),
{
    let mut i: usize = 0;
    while i < list.len()
        invariant
            0 <= i <= list@.len(),
            forall|j: int| #![trigger list@[j]] 0 <= j < i ==> list@[j]@ != device@,
        decreases list@.len() - i,
    {
        if list[i] == *device {
            proof {
                assert(list@[i as int]@ == device@);
            }
            return true;
        }
        i = i + 1;
    }
    false
}

} // verus!
