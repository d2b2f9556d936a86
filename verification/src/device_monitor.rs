//! The hotplug monitor: a pass-through reactor source that turns kernel
//! device events into the two coarse hotplug signals.
//!
//! The monitor owns one live kernel-event subscription, represented by its
//! pollable descriptor, and the publishing half of the signal bus.  On each
//! wake the reactor hands it at most one pending event, already read from
//! the subscription queue by the enclosing process; the monitor never
//! drains more than that one, so a still-readable queue makes the reactor
//! invoke it again.

use vstd::prelude::*;

use crate::signals::{Perceptron, SignalId, Signaler, INPUTS_CHANGED, OUTPUTS_CHANGED};
use crate::udev::{spec_is_input_name, spec_is_output_name, RawFd, UdevDevice};
use crate::udev::{is_input_device, is_output_device};

verus! {

/// Kernel device event handler.
pub struct DeviceMonitor {
    monitor_fd: RawFd,
    signaler: Signaler,
}

impl DeviceMonitor {
    /// The pollable descriptor of the underlying subscription.
    pub closed spec fn fd(&self) -> RawFd {
        self.monitor_fd
    }

    /// The publishing handle, with its record of emitted signals.
    pub closed spec fn signaler(&self) -> Signaler {
        self.signaler
    }

    /// Constructs a new `DeviceMonitor` around a live subscription's
    /// descriptor and a signaler.
    pub fn new(monitor_fd: RawFd, signaler: Signaler) -> (r: DeviceMonitor)
        ensures
            r.fd() == monitor_fd,
            r.signaler() == signaler,
    {
        DeviceMonitor { monitor_fd, signaler }
    }

    /// The descriptor the reactor polls for read-readiness.
    pub fn get_fd(&self) -> (fd: RawFd)
        ensures
            fd == self.fd(),
    {
        self.monitor_fd
    }

    /// Handles one reactor wake.  `event` is the one pending event received
    /// from the subscription queue, or `None` on a spurious wake, which is
    /// a no-op rather than an error.  An input-named event publishes
    /// exactly one `InputsChanged`; an output-named event exactly one
    /// `OutputsChanged`; anything else is dropped silently.
    pub fn process_event(&mut self, event: Option<&UdevDevice>)
        ensures
            final(self).fd() == old(self).fd(),
            match event {
                Some(d) => {
                    if spec_is_input_name(d@.sysname) {
                        final(self).signaler()@ == old(self).signaler()@.push(
                            (INPUTS_CHANGED, Perceptron::InputsChanged),
                        )
                    } else if spec_is_output_name(d@.sysname) {
                        final(self).signaler()@ == old(self).signaler()@.push(
                            (OUTPUTS_CHANGED, Perceptron::OutputsChanged),
                        )
                    } else {
                        final(self).signaler()@ == old(self).signaler()@
                    }
                },
                None => final(self).signaler()@ == old(self).signaler()@,
            },
    {
        match event {
            Some(e) => {
                if is_input_device(e) {
                    self.signaler.emit(INPUTS_CHANGED, Perceptron::InputsChanged);
                } else if is_output_device(e) {
                    self.signaler.emit(OUTPUTS_CHANGED, Perceptron::OutputsChanged);
                }
            },
            None => {
                // A wake without a pending event is expected; the queue may
                // wake spuriously.
            },
        }
    }

    /// Hands over the signals emitted so far for delivery on the bus.
    pub fn take_emitted(&mut self) -> (out: Vec<(SignalId, Perceptron)>)
        ensures
            final(self).fd() == old(self).fd(),
            out@ == old(self).signaler()@,
            final(self).signaler()@ == Seq::<(SignalId, Perceptron)>::empty(),
    {
        self.signaler.take_emitted()
    }
}

} // verus!
