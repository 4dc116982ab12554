//! Interrupt plumbing between Ethernet drivers and the network worker.

use vstd::prelude::*;

verus! {

/// What an interrupt of an Ethernet device asks of the network stack.
#[derive(Clone, Copy, Debug, Eq, PartialEq, Structural)]
pub enum EthernetIrqOutcome {
    /// The interrupt was handled and no network worker wakeup is needed.
    Handled,
    /// The interrupt shows network progress; the poll path must run.
    Wake,
}

/// Why a platform refused to register an Ethernet interrupt.
#[derive(Clone, Copy, Debug, Eq, PartialEq, Structural)]
pub enum EthernetIrqRegistrationError {
    /// The IRQ number is invalid for this platform.
    InvalidIrq,
    /// The IRQ line cannot be shared or is already occupied.
    Busy,
    /// IRQ registration is not supported on this platform.
    Unsupported,
    /// Another platform-specific failure.
    Other,
}

/// A live registration of an interrupt action; dropping it unregisters.
pub trait EthernetIrqRegistration: Send + Sync {

}

/// The interrupt causes an Ethernet driver reports.
#[derive(Clone, Copy, Debug, Eq, PartialEq, Structural)]
pub struct NetIrqEvents {
    pub rx_ready: bool,
    pub rx_error: bool,
    pub tx_done: bool,
}

/// Received frames, receive errors and finished transmissions wake the
/// network worker; any other interrupt is handled in place.
pub fn ethernet_irq_outcome(events: NetIrqEvents) -> (r: EthernetIrqOutcome)
    ensures
        r == (if events.rx_ready || events.rx_error || events.tx_done {
            EthernetIrqOutcome::Wake
        } else {
            EthernetIrqOutcome::Handled
        }),
{
    if events.rx_ready || events.rx_error || events.tx_done {
        EthernetIrqOutcome::Wake
    } else {
        EthernetIrqOutcome::Handled
    }
}

/// How an adapter set up its interrupt, once the platform has been asked.
#[derive(Clone, Copy, Debug, Eq, PartialEq, Structural)]
pub enum IrqSetup {
    /// The device has no interrupt line; the stack polls it.
    NoIrq,
    /// No platform registrar is installed; the stack polls the device.
    NoRegistrar,
    /// The driver gave no handler of its own; the stack polls the device.
    NoHandler,
    /// The handler is registered; the driver's interrupt is to be enabled.
    Registered,
    /// The platform refused the registration; the stack polls the device.
    Refused,
}

/// The driver's handler is taken out of it only where it can be registered:
/// the device has an interrupt line and a registrar is installed.
pub fn should_take_irq_handler(has_irq: bool, has_registrar: bool) -> (r: bool)
    ensures
        r == (has_irq && has_registrar),
{
    has_irq && has_registrar
}

/// What came of setting up the interrupt, given what the device, the
/// platform and the registration gave.
pub open spec fn irq_setup_spec(
    has_irq: bool,
    has_registrar: bool,
    has_handler: bool,
    registered: bool,
) -> IrqSetup {
    if !has_irq {
        IrqSetup::NoIrq
    } else if !has_registrar {
        IrqSetup::NoRegistrar
    } else if !has_handler {
        IrqSetup::NoHandler
    } else if registered {
        IrqSetup::Registered
    } else {
        IrqSetup::Refused
    }
}

/// What came of setting up the interrupt, given what the device, the
/// platform and the registration gave.
pub fn irq_setup(has_irq: bool, has_registrar: bool, has_handler: bool, registered: bool) -> (r:
    IrqSetup)
    ensures
        r == irq_setup_spec(has_irq, has_registrar, has_handler, registered),
        !has_irq ==> r == IrqSetup::NoIrq,
        has_irq && !has_registrar ==> r == IrqSetup::NoRegistrar,
        has_irq && has_registrar && !has_handler ==> r == IrqSetup::NoHandler,
        has_irq && has_registrar && has_handler ==> r == (if registered {
            IrqSetup::Registered
        } else {
            IrqSetup::Refused
        }),
{
    if !has_irq {
        IrqSetup::NoIrq
    } else if !has_registrar {
        IrqSetup::NoRegistrar
    } else if !has_handler {
        IrqSetup::NoHandler
    } else if registered {
        IrqSetup::Registered
    } else {
        IrqSetup::Refused
    }
}

/// The device's readiness is exposed to pollers only where something will
/// wake them: a registered interrupt, or receive readiness delivered out of
/// band.
pub fn exposes_readiness(setup: IrqSetup, oob_rx: bool) -> (r: bool)
    ensures
        r == (setup == IrqSetup::Registered || oob_rx),
{
    match setup {
        IrqSetup::Registered => true,
        _ => oob_rx,
    }
}

/// An action that a platform runs from its interrupt handler.
pub struct EthernetIrqAction<F> {
    handler: F,
}

impl<F: FnMut() -> EthernetIrqOutcome + Send> EthernetIrqAction<F> {
    /// The handler that the action runs.
    pub closed spec fn handler(&self) -> F {
        self.handler
    }

    pub fn new(handler: F) -> (r: Self)
        ensures
            r.handler() == handler,
    {
        Self { handler }
    }

    /// Runs the handler once and passes on what it returned.
    pub fn run(&mut self) -> (r: EthernetIrqOutcome)
        requires
            call_requires(old(self).handler(), ()),
        ensures
            call_ensures(old(self).handler(), (), r),
    {
        (self.handler)()
    }
}

/// An adapter exposes its readiness to pollers exactly when its interrupt
/// handler was registered (the device has an interrupt line, a registrar is
/// installed, the driver gave a handler and the platform accepted it) or it
/// receives out of band.
pub proof fn lemma_readiness_exposed(
    has_irq: bool,
    has_registrar: bool,
    has_handler: bool,
    registered: bool,
    oob_rx: bool,
)
    ensures
        (irq_setup_spec(has_irq, has_registrar, has_handler, registered) == IrqSetup::Registered
            || oob_rx) <==> ((has_irq && has_registrar && has_handler && registered) || oob_rx),
{
}

} // verus!
