//! Power/clock sequencing state machine.
//!
//! The sequencer waits for three independent readiness conditions — the
//! high-frequency clock is stable, the USB power supply is ready, and the USB
//! controller itself reports ready — and asserts the bus pull-up once all
//! three have been observed. Any (state, event) pair outside the transition
//! table is a protocol violation and drives a fatal disconnect; none is
//! silently ignored.

use vstd::prelude::*;

use crate::Action;

verus! {

/// USB power sequencing state.
#[derive(Clone, Copy, Debug, PartialEq, Eq, Structural)]
pub enum PowerState {
    /// The USB peripheral is off: no cable has been detected.
    Off,
    /// The peripheral is powering up; each flag records one readiness
    /// condition already observed.
    RampUp { clock: bool, power: bool, usb: bool },
    /// All three conditions met; the pull-up is asserted.
    Ready,
}

/// One pending event of the power/clock peripheral.
#[allow(non_camel_case_types)]
#[derive(Clone, Copy, Debug, PartialEq, Eq, Structural)]
pub enum PowerEvent {
    /// A USB cable (VBUS) has been detected.
    USBDETECTED,
    /// The USB cable has been removed.
    USBREMOVED,
    /// The USB power supply is ready.
    USBPWRRDY,
}

/// The power peripheral's event flags, one bit per hardware condition; each
/// is cleared by explicit acknowledgement when its event is consumed.
#[derive(Clone, Copy, Debug, PartialEq, Eq, Structural)]
pub struct PowerEvents {
    /// EVENTS_USBDETECTED is pending.
    pub usbdetected: bool,
    /// EVENTS_USBREMOVED is pending.
    pub usbremoved: bool,
    /// EVENTS_USBPWRRDY is pending.
    pub usbpwrrdy: bool,
}

/// Which event `PowerEvent::next` reports for the given flags: the pending
/// event of highest priority, in the fixed decode order.
pub open spec fn power_event_pending(f: PowerEvents) -> Option<PowerEvent> {
    if f.usbdetected {
        Some(PowerEvent::USBDETECTED)
    } else if f.usbremoved {
        Some(PowerEvent::USBREMOVED)
    } else if f.usbpwrrdy {
        Some(PowerEvent::USBPWRRDY)
    } else {
        None
    }
}

/// The flags after the reported event has been acknowledged.
pub open spec fn power_event_acked(f: PowerEvents) -> PowerEvents {
    if f.usbdetected {
        PowerEvents { usbdetected: false, ..f }
    } else if f.usbremoved {
        PowerEvents { usbremoved: false, ..f }
    } else if f.usbpwrrdy {
        PowerEvents { usbpwrrdy: false, ..f }
    } else {
        f
    }
}

impl PowerEvent {
    /// Takes the next pending power event out of the flags, acknowledging
    /// exactly the event bit that is reported.
    pub fn next(flags: &mut PowerEvents) -> (r: Option<PowerEvent>)
        ensures
            r == power_event_pending(*old(flags)),
            *final(flags) == power_event_acked(*old(flags)),
    {
        if flags.usbdetected {
            flags.usbdetected = false;
            Some(PowerEvent::USBDETECTED)
        } else if flags.usbremoved {
            flags.usbremoved = false;
            Some(PowerEvent::USBREMOVED)
        } else if flags.usbpwrrdy {
            flags.usbpwrrdy = false;
            Some(PowerEvent::USBPWRRDY)
        } else {
            None
        }
    }
}

/// The power sequencer's transition function for one power-peripheral
/// interrupt: from the current state, the pending event (if any) and whether
/// the high-frequency clock is already stable, to the next state and the
/// hardware action the caller must perform.
pub open spec fn power_step(s: PowerState, e: Option<PowerEvent>, clock_stable: bool) -> (
    PowerState,
    Action,
) {
    match s {
        PowerState::Off => {
            if e is None {
                (s, Action::Nothing)
            } else if e == Some(PowerEvent::USBDETECTED) {
                (
                    PowerState::RampUp { clock: clock_stable, power: false, usb: false },
                    Action::EnableUsbPeripheral,
                )
            } else {
                (s, Action::FatalUnreachable)
            }
        },
        PowerState::RampUp { clock, power, usb } => {
            if !clock && e is None {
                if power && usb {
                    (PowerState::Ready, Action::ConnectPullUp)
                } else {
                    (PowerState::RampUp { clock: true, power, usb }, Action::Nothing)
                }
            } else if power {
                (s, Action::FatalUnreachable)
            } else if e is None {
                (s, Action::Nothing)
            } else if e == Some(PowerEvent::USBPWRRDY) {
                if clock && usb {
                    (PowerState::Ready, Action::ConnectPullUp)
                } else {
                    (PowerState::RampUp { clock, power: true, usb }, Action::Nothing)
                }
            } else {
                (s, Action::FatalUnreachable)
            }
        },
        PowerState::Ready => (s, Action::FatalUnimplemented),
    }
}

/// The power sequencer's transition for the controller-ready condition, which
/// the bus peripheral signals (through its event-cause register) rather than
/// the power peripheral.
pub open spec fn power_usb_ready_step(s: PowerState) -> (PowerState, Action) {
    match s {
        PowerState::RampUp { clock, power, usb } => {
            if !usb {
                if clock && power {
                    (PowerState::Ready, Action::ConnectPullUp)
                } else {
                    (PowerState::RampUp { clock, power, usb: true }, Action::Nothing)
                }
            } else {
                (s, Action::FatalUnreachable)
            }
        },
        _ => (s, Action::FatalUnreachable),
    }
}

/// The transition table of the power sequencer: the (state, event) pairs for
/// which a power-peripheral interrupt has a defined (non-fatal) transition.
pub open spec fn power_pair_defined(s: PowerState, e: Option<PowerEvent>) -> bool {
    match s {
        PowerState::Off => e is None || e == Some(PowerEvent::USBDETECTED),
        PowerState::RampUp { clock, power, usb } => (e is None && !(clock && power)) || (e
            == Some(PowerEvent::USBPWRRDY) && !power),
        PowerState::Ready => false,
    }
}

/// Undefined transitions are always fatal, never silently ignored: a
/// power-peripheral interrupt produces a fatal action exactly when the
/// (state, event) pair is outside the transition table, and likewise the
/// controller-ready condition is fatal exactly when it arrives in a state
/// that is not still waiting for it.
pub proof fn lemma_power_undefined_pairs_fatal(
    s: PowerState,
    e: Option<PowerEvent>,
    clock_stable: bool,
)
    ensures
        crate::is_fatal(power_step(s, e, clock_stable).1) <==> !power_pair_defined(s, e),
        crate::is_fatal(power_usb_ready_step(s).1) <==> !(s matches PowerState::RampUp {
            usb,
            ..
        } && !usb),
{
}

} // verus!
