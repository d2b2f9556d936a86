//! The module shell around the manager: which signal topics it subscribes
//! to, and how an incoming signal is routed.
//!
//! The enclosing module system constructs the module, calls `initialize`
//! once to learn its subscriptions, and then hands it every matching
//! signal; `execute` decides what a signal asks for, and the enclosing
//! process performs the snapshot and the reconciliation steps the answer
//! names.

use vstd::prelude::*;

use crate::device_manager::DeviceManager;
use crate::signals::{Perceptron, SignalId, INPUTS_CHANGED, OUTPUTS_CHANGED};
use crate::udev::DeviceId;

verus! {

/// What a delivered signal asks the device manager to do.
#[derive(Clone, Copy, PartialEq, Eq, Structural, Debug)]
pub enum ModuleAction {
    /// Take a fresh input snapshot and run one reconciliation pass.
    RescanInputs,
    /// Hand the outputs-changed notification to the output collaborator.
    RescanOutputs,
    /// Not a hotplug signal: nothing to do.
    Ignore,
}

/// The device-manager module.
pub struct DeviceManagerModule {
    /// The manager, constructed by `initialize`.
    pub manager: Option<DeviceManager>,
}

impl DeviceManagerModule {
    /// Constructs the module; the manager itself is built in
    /// `initialize`.
    pub fn new() -> (r: DeviceManagerModule)
        ensures
            r.manager is None,
    {
        DeviceManagerModule { manager: None }
    }

    /// Builds the manager and returns the signal topics the module
    /// subscribes to: the two hotplug topics, inputs first.
    pub fn initialize(&mut self) -> (signals: Vec<SignalId>)
        ensures
            final(self).manager is Some,
            final(self).manager.unwrap().wf(),
            final(self).manager.unwrap().input_collector.registered() =~= Set::<DeviceId>::empty(),
            signals@ =~= seq![INPUTS_CHANGED, OUTPUTS_CHANGED],
    {
        self.manager = Some(DeviceManager::new());
        let mut signals: Vec<SignalId> = Vec::new();
        signals.push(INPUTS_CHANGED);
        signals.push(OUTPUTS_CHANGED);
        signals
    }

    /// Routes one delivered signal: inputs-changed asks for an input
    /// rescan, outputs-changed for the output collaborator, anything else
    /// for nothing.  The module itself is untouched.
    pub fn execute(&self, package: &Perceptron) -> (action: ModuleAction)
        ensures
            action == match package {
                Perceptron::InputsChanged => ModuleAction::RescanInputs,
                Perceptron::OutputsChanged => ModuleAction::RescanOutputs,
                Perceptron::Custom(_) => ModuleAction::Ignore,
            },
    {
        match package {
            Perceptron::InputsChanged => ModuleAction::RescanInputs,
            Perceptron::OutputsChanged => ModuleAction::RescanOutputs,
            Perceptron::Custom(_) => ModuleAction::Ignore,
        }
    }

    /// Winds the module down.  Nothing is torn down here: drivers and the
    /// monitor belong to the reactor, which the enclosing process owns.
    pub fn finalize(&mut self)
        ensures
            *final(self) == *old(self),
    {
    }
}

} // verus!
