//! The signal bus model: a closed catalog of topics and a signaler that
//! records every emission in order.
//!
//! The process-wide bus dispatches asynchronously to subscribers; this
//! library only publishes.  The `Signaler` here is the publishing half: it
//! keeps the exact sequence of emissions, which the enclosing process drains
//! and delivers.  Contracts over that sequence say precisely which signals a
//! component sent.

use vstd::prelude::*;

verus! {

/// Identifier of a signal topic on the bus.
pub type SignalId = u64;

/// Topic on which `Perceptron::InputsChanged` is published.
pub const INPUTS_CHANGED: SignalId = 1;

/// Topic on which `Perceptron::OutputsChanged` is published.
pub const OUTPUTS_CHANGED: SignalId = 2;

/// Payload carried by a signal.  The broader system defines many more
/// notification kinds; this library publishes only the two hotplug ones,
/// and `Custom` stands for every payload it merely passes along unread.
#[derive(Clone, Copy, PartialEq, Eq, Structural, Debug)]
pub enum Perceptron {
    InputsChanged,
    OutputsChanged,
    Custom(SignalId),
}

/// Publishing handle to the signal bus.  Emissions are recorded in order;
/// the view of a `Signaler` is the sequence of `(topic, payload)` pairs
/// emitted through it and not yet taken for delivery.
pub struct Signaler {
    emitted: Vec<(SignalId, Perceptron)>,
}

impl View for Signaler {
    type V = Seq<(SignalId, Perceptron)>;

    closed spec fn view(&self) -> Seq<(SignalId, Perceptron)> {
        self.emitted@
    }
}

impl Signaler {
    /// Constructs a signaler with nothing emitted yet.
    pub fn new() -> (r: Signaler)
        ensures
            r@ == Seq::<(SignalId, Perceptron)>::empty(),
    {
        Signaler { emitted: Vec::new() }
    }

    /// Publishes `package` on topic `id`.
    pub fn emit(&mut self, id: SignalId, package: Perceptron)
        ensures
            final(self)@ == old(self)@.push((id, package)),
    {
        self.emitted.push((id, package));
    }

    /// Hands the recorded emissions over for delivery, leaving the record
    /// empty.  The enclosing process calls this after each handler run and
    /// routes each pair to the bus's subscribers.
    pub fn take_emitted(&mut self) -> (out: Vec<(SignalId, Perceptron)>)
        ensures
            out@ == old(self)@,
            final(self)@ == Seq::<(SignalId, Perceptron)>::empty(),
    {
        let mut out: Vec<(SignalId, Perceptron)> = Vec::new();
        core::mem::swap(&mut out, &mut self.emitted);
        out
    }
}

} // verus!
