//! The manager: wires the enumerator, the input reconciler, the output
//! scan and the hotplug monitor together.
//!
//! Startup order: establish the session channel for the privileged opener
//! (failure is non-fatal), run one full output scan, run one full input
//! scan against the empty registry, then start hotplug monitoring; if the
//! monitor cannot be started the process carries on without hotplug
//! awareness.  Afterwards each `InputsChanged` signal triggers one more
//! reconciliation pass, and `OutputsChanged` is left to the output
//! collaborator.

use vstd::prelude::*;

use crate::device_monitor::DeviceMonitor;
use crate::error::Illusion;
use crate::input_collector::{plan_is_for, InputCollector, ScanPlan};
use crate::signals::Signaler;
use crate::udev::{device_views, record_views, spec_input_devices, spec_output_devices};
use crate::udev::{RawFd, Udev, UdevDevice};

verus! {

/// Searches for input and output devices and keeps watch over them.
pub struct DeviceManager {
    /// The device-database access shared by the scans.
    pub udev: Udev,
    /// The input reconciler, owner of the device registry.
    pub input_collector: InputCollector,
}

impl DeviceManager {
    /// Well-formedness: the registry keeps at most one handle per device.
    pub open spec fn wf(&self) -> bool {
        self.input_collector.wf()
    }

    /// Constructs a new `DeviceManager` with an empty registry.  The
    /// startup scans and the monitor start follow as separate steps, fed
    /// with the enumeration snapshots the enclosing process takes.
    pub fn new() -> (r: DeviceManager)
        ensures
            r.wf(),
            r.input_collector.registered() =~= Set::<crate::udev::DeviceId>::empty(),
    {
        let udev = Udev::new();
        let r = DeviceManager { udev, input_collector: InputCollector::new(udev.clone()) };
        proof {
            assert(r.input_collector.registry().dom() =~= Set::<crate::udev::DeviceId>::empty());
        }
        r
    }

    /// One full input scan: enumerates from the snapshot and decides the
    /// reconciliation pass.  The decision is applied with
    /// `input_collector.apply_scan` once drivers are built.
    pub fn scan_input_devices(&self, snapshot: &Vec<UdevDevice>) -> (plan: ScanPlan)
        requires
            self.wf(),
        ensures
            plan_is_for(
                device_views(plan.added@),
                device_views(plan.removed@),
                self.input_collector.registered(),
                spec_input_devices(record_views(snapshot@)).to_set(),
            ),
    {
        self.input_collector.scan_devices(snapshot)
    }

    /// One full output scan: the device nodes of the display controllers
    /// in the snapshot, in order, each to be handed to the output
    /// collaborator once.
    pub fn scan_output_devices(&self, snapshot: &Vec<UdevDevice>) -> (nodes: Vec<String>)
        ensures
            nodes@.map_values(|s: String| s@) == spec_output_devices(record_views(snapshot@)),
    {
        self.udev.iterate_drm_devices(snapshot)
    }

    /// Decides what startup does with the outcome of creating the hotplug
    /// subscription: wrap a successful one into a monitor for the reactor,
    /// or carry on without hotplug awareness after a failure, which the
    /// enclosing process reports.
    pub fn initialize_device_monitor(
        &self,
        subscription: Result<RawFd, Illusion>,
        signaler: Signaler,
    ) -> (r: Result<DeviceMonitor, Illusion>)
        ensures
            match subscription {
                Ok(fd) => r matches Ok(m) && m.fd() == fd && m.signaler()@ == signaler@,
                Err(e) => r matches Err(e2) && e2 == e,
            },
    {
        match subscription {
            Ok(fd) => Ok(self.udev.start_device_monitor(fd, signaler)),
            Err(e) => Err(e),
        }
    }

    /// Handles an `InputsChanged` signal: one more reconciliation pass
    /// over a fresh snapshot.
    pub fn on_inputs_changed(&self, snapshot: &Vec<UdevDevice>) -> (plan: ScanPlan)
        requires
            self.wf(),
        ensures
            plan_is_for(
                device_views(plan.added@),
                device_views(plan.removed@),
                self.input_collector.registered(),
                spec_input_devices(record_views(snapshot@)).to_set(),
            ),
    {
        self.scan_input_devices(snapshot)
    }

    /// Handles an `OutputsChanged` signal.  This core defines no output
    /// reconciliation; the output collaborator owns that policy, so the
    /// manager is left untouched.
    pub fn on_outputs_changed(&mut self)
        ensures
            *final(self) == *old(self),
    {
    }
}

} // verus!
