//! The USB device-controller model: the driver's complete shared state, the
//! interrupt dispatchers that drive the power, enumeration and bulk state
//! machines, and the claim of the bulk endpoint pair.
//!
//! The hardware is split out of the model: each interrupt handler takes the
//! register values it consults as an input snapshot and returns the
//! register writes it decides on as an [`Action`]. Buffer ownership crossing
//! between the task and the interrupt context is modeled by parking packets
//! inside the model while the hardware owns them.

use vstd::prelude::*;

use crate::Action;
use crate::NCONFIGS;
use crate::bulk::{BulkIn, BulkOut, EpOut1State};
use crate::ep0::{
    BusState, Ep0State, SetupPacket, DescriptorType, GET_DESCRIPTOR, SET_ADDRESS,
    SET_CONFIGURATION, device_descriptor, config_descriptor, ep0_setup_step, ep0_after_start,
    first_chunk,
};
use crate::pool::{NPACKETS, Packet, Pool};
use crate::power::{PowerState, PowerEvent, power_step, power_usb_ready_step};

verus! {

/// One pending event of the bus peripheral.
#[allow(non_camel_case_types)]
#[derive(Clone, Copy, Debug, PartialEq, Eq, Structural)]
pub enum UsbdEvent {
    /// The DMA transfer on bulk IN endpoint 1 finished reading the buffer.
    ENDEPIN1,
    /// The DMA transfer on bulk OUT endpoint 1 finished writing the buffer.
    ENDEPOUT1,
    /// A SETUP packet arrived on endpoint 0.
    EP0SETUP,
    /// The endpoint 0 IN data packet was acknowledged by the host.
    EP0DATADONE,
    /// A bulk endpoint exchanged data with the host (see the data status
    /// register for which).
    EPDATA,
    /// A bus-level condition is flagged in the event-cause register.
    USBEVENT,
    /// The host issued a USB reset.
    USBRESET,
}

/// The bus peripheral's event flags, one bit per hardware condition.
#[derive(Clone, Copy, Debug, PartialEq, Eq, Structural)]
pub struct UsbdEvents {
    /// EVENTS_USBEVENT is pending.
    pub usbevent: bool,
    /// EVENTS_USBRESET is pending.
    pub usbreset: bool,
    /// EVENTS_EP0DATADONE is pending.
    pub ep0datadone: bool,
    /// EVENTS_EP0SETUP is pending.
    pub ep0setup: bool,
    /// EVENTS_ENDEPIN1 is pending.
    pub endepin1: bool,
    /// EVENTS_ENDEPOUT1 is pending.
    pub endepout1: bool,
    /// EVENTS_EPDATA is pending.
    pub epdata: bool,
}

/// Which event `UsbdEvent::next` reports for the given flags: the pending
/// event of highest priority, in the fixed decode order.
pub open spec fn usbd_event_pending(f: UsbdEvents) -> Option<UsbdEvent> {
    if f.usbevent {
        Some(UsbdEvent::USBEVENT)
    } else if f.usbreset {
        Some(UsbdEvent::USBRESET)
    } else if f.ep0datadone {
        Some(UsbdEvent::EP0DATADONE)
    } else if f.ep0setup {
        Some(UsbdEvent::EP0SETUP)
    } else if f.endepin1 {
        Some(UsbdEvent::ENDEPIN1)
    } else if f.endepout1 {
        Some(UsbdEvent::ENDEPOUT1)
    } else if f.epdata {
        Some(UsbdEvent::EPDATA)
    } else {
        None
    }
}

/// The flags after the reported event has been acknowledged.
pub open spec fn usbd_event_acked(f: UsbdEvents) -> UsbdEvents {
    if f.usbevent {
        UsbdEvents { usbevent: false, ..f }
    } else if f.usbreset {
        UsbdEvents { usbreset: false, ..f }
    } else if f.ep0datadone {
        UsbdEvents { ep0datadone: false, ..f }
    } else if f.ep0setup {
        UsbdEvents { ep0setup: false, ..f }
    } else if f.endepin1 {
        UsbdEvents { endepin1: false, ..f }
    } else if f.endepout1 {
        UsbdEvents { endepout1: false, ..f }
    } else if f.epdata {
        UsbdEvents { epdata: false, ..f }
    } else {
        f
    }
}

impl UsbdEvent {
    /// Takes the next pending bus event out of the flags, acknowledging
    /// exactly the event bit that is reported.
    pub fn next(flags: &mut UsbdEvents) -> (r: Option<UsbdEvent>)
        ensures
            r == usbd_event_pending(*old(flags)),
            *final(flags) == usbd_event_acked(*old(flags)),
    {
        if flags.usbevent {
            flags.usbevent = false;
            Some(UsbdEvent::USBEVENT)
        } else if flags.usbreset {
            flags.usbreset = false;
            Some(UsbdEvent::USBRESET)
        } else if flags.ep0datadone {
            flags.ep0datadone = false;
            Some(UsbdEvent::EP0DATADONE)
        } else if flags.ep0setup {
            flags.ep0setup = false;
            Some(UsbdEvent::EP0SETUP)
        } else if flags.endepin1 {
            flags.endepin1 = false;
            Some(UsbdEvent::ENDEPIN1)
        } else if flags.endepout1 {
            flags.endepout1 = false;
            Some(UsbdEvent::ENDEPOUT1)
        } else if flags.epdata {
            flags.epdata = false;
            Some(UsbdEvent::EPDATA)
        } else {
            None
        }
    }
}

/// The event-cause register, read and acknowledged on USBEVENT.
#[derive(Clone, Copy, Debug, PartialEq, Eq, Structural)]
pub struct EventCause {
    /// The USB controller is ready.
    pub ready: bool,
    /// The bus entered suspend.
    pub suspend: bool,
    /// The bus resumed from suspend.
    pub resume: bool,
}

/// The endpoint data status register, read and acknowledged on EPDATA.
#[derive(Clone, Copy, Debug, PartialEq, Eq, Structural)]
pub struct EpDataStatus {
    /// Bulk IN endpoint 1 finished its exchange (host acknowledged the data).
    pub epin1: bool,
    /// Bulk OUT endpoint 1 received host data.
    pub epout1: bool,
}

/// Everything one bus interrupt may read from the hardware: the event being
/// dispatched and a snapshot of the registers the handler consults.
#[derive(Clone, Copy, Debug, PartialEq, Eq, Structural)]
pub struct UsbdIrqInput {
    /// The pending event being dispatched.
    pub event: UsbdEvent,
    /// The event-cause register (consulted on USBEVENT).
    pub eventcause: EventCause,
    /// The endpoint data status register (consulted on EPDATA).
    pub epdatastatus: EpDataStatus,
    /// The bulk OUT size register: how many bytes the host packet holds
    /// (consulted when a bulk OUT transfer starts).
    pub size_epout1: u8,
    /// The SETUP packet registers (consulted on EP0SETUP).
    pub setup: SetupPacket,
}

/// The driver state at specification level.
pub struct UsbdV {
    /// Power sequencing state.
    pub power: PowerState,
    /// Enumeration state.
    pub bus: BusState,
    /// Control-read continuation state.
    pub ep0: Ep0State,
    /// Source bytes of the current (or last) control read.
    pub ep0_data: Seq<u8>,
    /// Offset of the in-flight control-read packet into `ep0_data`.
    pub ep0_ptr: u16,
    /// Size of the in-flight control-read packet.
    pub ep0_maxcnt: u8,
    /// Whether the automatic-status-stage shortcut is armed.
    pub ep0_short: bool,
    /// Bulk IN endpoint enabled.
    pub epinen: bool,
    /// Bulk OUT endpoint enabled.
    pub epouten: bool,
    /// Bulk OUT hand-off state.
    pub epout1: EpOut1State,
    /// Size register value captured when the bulk OUT transfer started.
    pub epout1_size: u8,
    /// The read buffer parked with the hardware, when one is armed.
    pub epout1_buffer: Option<Packet>,
    /// The write buffer owned by the hardware until its DMA read ends.
    pub epin1_buffer: Option<Packet>,
    /// A bulk IN transfer is outstanding.
    pub epin1_busy: bool,
    /// Which pool slots are checked out.
    pub pool: Seq<bool>,
    /// The bulk endpoint pair has been claimed.
    pub claimed: bool,
}

/// Well-formedness of the driver state.
///
/// The control-read bookkeeping always covers the transfer source exactly
/// (`offset + in-flight + leftover == length`, shortcut armed exactly on the
/// final packet, every non-final packet full-size); a buffer is parked
/// whenever the OUT hand-off says so; and every parked buffer is a
/// checked-out pool slot, the two distinct.
pub open spec fn usbd_wf(v: UsbdV) -> bool {
    &&& v.ep0_data.len() <= 0xffff
    &&& (v.ep0 matches Ep0State::Write { leftover } ==> {
        &&& v.ep0_ptr + v.ep0_maxcnt + leftover == v.ep0_data.len()
        &&& (v.ep0_short <==> leftover == 0)
        &&& (leftover > 0 ==> v.ep0_maxcnt == 64)
        &&& v.ep0_maxcnt <= 64
    })
    &&& ((v.epout1 is BufferReady || v.epout1 is TransferInProgress) ==> v.epout1_buffer is Some)
    &&& (v.epout1_buffer matches Some(p) ==> p.wf() && 0 <= p.slot_id() < v.pool.len()
        && v.pool[p.slot_id()])
    &&& (v.epin1_buffer matches Some(p) ==> p.wf() && 0 <= p.slot_id() < v.pool.len()
        && v.pool[p.slot_id()])
    &&& (match (v.epout1_buffer, v.epin1_buffer) {
        (Some(p), Some(q)) => p.slot_id() != q.slot_id(),
        _ => true,
    })
    &&& v.pool.len() == NPACKETS
}

/// The USB device-controller driver state: every state cell the interrupt
/// handlers and the application tasks share, plus the packet pool.
pub struct Usbd {
    pub(crate) power: PowerState,
    pub(crate) bus: BusState,
    pub(crate) ep0: Ep0State,
    pub(crate) ep0_data: Vec<u8>,
    pub(crate) ep0_ptr: u16,
    pub(crate) ep0_maxcnt: u8,
    pub(crate) ep0_short: bool,
    pub(crate) epinen: bool,
    pub(crate) epouten: bool,
    pub(crate) epout1: EpOut1State,
    pub(crate) epout1_size: u8,
    pub(crate) epout1_packet: Option<Packet>,
    pub(crate) epin1_packet: Option<Packet>,
    pub(crate) epin1_busy: bool,
    pub(crate) pool: Pool,
    pub(crate) claimed: bool,
}

impl View for Usbd {
    type V = UsbdV;

    open(crate) spec fn view(&self) -> UsbdV {
        UsbdV {
            power: self.power,
            bus: self.bus,
            ep0: self.ep0,
            ep0_data: self.ep0_data@,
            ep0_ptr: self.ep0_ptr,
            ep0_maxcnt: self.ep0_maxcnt,
            ep0_short: self.ep0_short,
            epinen: self.epinen,
            epouten: self.epouten,
            epout1: self.epout1,
            epout1_size: self.epout1_size,
            epout1_buffer: self.epout1_packet,
            epin1_buffer: self.epin1_packet,
            epin1_busy: self.epin1_busy,
            pool: self.pool.slots(),
            claimed: self.claimed,
        }
    }
}

/// The driver state at reset: everything off, idle and unclaimed, every pool
/// slot free.
pub open spec fn usbd_init() -> UsbdV {
    UsbdV {
        power: PowerState::Off,
        bus: BusState::Default,
        ep0: Ep0State::Idle,
        ep0_data: Seq::empty(),
        ep0_ptr: 0,
        ep0_maxcnt: 0,
        ep0_short: false,
        epinen: false,
        epouten: false,
        epout1: EpOut1State::Idle,
        epout1_size: 0,
        epout1_buffer: None,
        epin1_buffer: None,
        epin1_busy: false,
        pool: Seq::new(NPACKETS as nat, |i: int| false),
        claimed: false,
    }
}

/// Starting a control read of `data`: record the source, send the first
/// chunk, and arm the shortcut exactly when the whole transfer fits in one
/// packet.
pub open spec fn ep0_start_apply(v: UsbdV, data: Seq<u8>) -> (UsbdV, Action) {
    (
        UsbdV {
            ep0: ep0_after_start(data.len() as int),
            ep0_data: data,
            ep0_ptr: 0,
            ep0_maxcnt: first_chunk(data.len() as int) as u8,
            ep0_short: data.len() <= 64,
            ..v
        },
        Action::StartEpIn0 {
            offset: 0,
            count: first_chunk(data.len() as int) as u8,
            status_after: data.len() <= 64,
        },
    )
}

/// Continuing a control read after a data-sent completion with bytes left:
/// advance the source offset by one full packet; if the remainder fits in one
/// packet, arm the shortcut and send it all, otherwise send another full
/// packet.
pub open spec fn ep0_continue_apply(v: UsbdV) -> (UsbdV, Action) {
    match v.ep0 {
        Ep0State::Write { leftover } => {
            let ptr2 = (v.ep0_ptr + 64) as u16;
            if leftover <= 64 {
                (
                    UsbdV {
                        ep0: Ep0State::Write { leftover: 0 },
                        ep0_ptr: ptr2,
                        ep0_maxcnt: leftover as u8,
                        ep0_short: true,
                        ..v
                    },
                    Action::StartEpIn0 {
                        offset: ptr2,
                        count: leftover as u8,
                        status_after: true,
                    },
                )
            } else {
                (
                    UsbdV {
                        ep0: Ep0State::Write { leftover: (leftover - 64) as u16 },
                        ep0_ptr: ptr2,
                        ..v
                    },
                    Action::StartEpIn0 { offset: ptr2, count: 64, status_after: false },
                )
            }
        },
        Ep0State::Idle => (v, Action::FatalUnreachable),
    }
}

/// One SETUP packet applied to the whole driver state: the enumeration step
/// decides, then either a control read starts or the endpoint-enable mirror
/// follows the action.
pub open spec fn apply_ep0_setup(v: UsbdV, s: SetupPacket) -> (UsbdV, Action) {
    let st = ep0_setup_step(v.bus, s);
    match st.start {
        Some(data) => {
            let (v2, a) = ep0_start_apply(v, data);
            (UsbdV { bus: st.bus, ..v2 }, a)
        },
        None => (
            UsbdV {
                bus: st.bus,
                ep0: st.ep0,
                epinen: if st.action is EnableEndpoints {
                    true
                } else {
                    v.epinen
                },
                epouten: if st.action is EnableEndpoints {
                    true
                } else {
                    v.epouten
                },
                ..v
            },
            st.action,
        ),
    }
}

/// The bus interrupt dispatcher's transition function: from the driver state
/// and the register snapshot to the next state and the hardware action.
///
/// Any (state, event) pair without a defined transition yields a fatal
/// action; an explicitly deferred feature (cancelling transfers on reset or
/// reconfiguration, descriptors this device does not have) yields the
/// unimplemented fatal action.
pub open spec fn usbd_step(v: UsbdV, inp: UsbdIrqInput) -> (UsbdV, Action) {
    match v.power {
        PowerState::Off => (v, Action::FatalUnreachable),
        PowerState::RampUp { .. } => {
            if inp.event == UsbdEvent::USBEVENT {
                if !inp.eventcause.ready {
                    (v, Action::FatalUnreachable)
                } else {
                    let (p2, a) = power_usb_ready_step(v.power);
                    (UsbdV { power: p2, ..v }, a)
                }
            } else {
                (v, Action::FatalUnreachable)
            }
        },
        PowerState::Ready => match inp.event {
            UsbdEvent::USBEVENT => {
                if inp.eventcause.suspend {
                    (v, Action::EnterLowPower)
                } else if inp.eventcause.resume {
                    (v, Action::LeaveLowPower)
                } else {
                    (v, Action::FatalUnimplemented)
                }
            },
            UsbdEvent::USBRESET => match v.bus {
                BusState::Configured { .. } => (v, Action::FatalUnimplemented),
                _ => (UsbdV { bus: BusState::Default, ..v }, Action::Nothing),
            },
            UsbdEvent::EP0SETUP => {
                if v.ep0 is Idle {
                    apply_ep0_setup(v, inp.setup)
                } else {
                    (v, Action::FatalUnreachable)
                }
            },
            UsbdEvent::EP0DATADONE => match v.ep0 {
                Ep0State::Write { leftover } => {
                    if leftover != 0 {
                        ep0_continue_apply(v)
                    } else {
                        (UsbdV { ep0: Ep0State::Idle, ..v }, Action::Nothing)
                    }
                },
                Ep0State::Idle => (v, Action::FatalUnreachable),
            },
            UsbdEvent::ENDEPIN1 => match v.epin1_buffer {
                Some(p) => (
                    UsbdV {
                        epin1_buffer: None,
                        pool: v.pool.update(p.slot_id(), false),
                        ..v
                    },
                    Action::Nothing,
                ),
                None => (v, Action::FatalUnreachable),
            },
            UsbdEvent::ENDEPOUT1 => {
                if v.epout1 is TransferInProgress {
                    (UsbdV { epout1: EpOut1State::Idle, ..v }, Action::Nothing)
                } else {
                    (v, Action::FatalUnreachable)
                }
            },
            UsbdEvent::EPDATA => {
                let v1 = if inp.epdatastatus.epin1 {
                    UsbdV { epin1_busy: false, ..v }
                } else {
                    v
                };
                if inp.epdatastatus.epout1 {
                    match v1.epout1 {
                        EpOut1State::Idle => (
                            UsbdV { epout1: EpOut1State::DataReady, ..v1 },
                            Action::Nothing,
                        ),
                        EpOut1State::BufferReady => (
                            UsbdV {
                                epout1: EpOut1State::TransferInProgress,
                                epout1_size: inp.size_epout1,
                                ..v1
                            },
                            Action::StartEpOut1 { size: inp.size_epout1 },
                        ),
                        _ => (v1, Action::FatalUnreachable),
                    }
                } else {
                    (v1, Action::Nothing)
                }
            },
        },
    }
}

impl Usbd {
    /// The driver state at reset.
    pub fn new() -> (r: Usbd)
        ensures
            r@ == usbd_init(),
            usbd_wf(r@),
    {
        let r = Usbd {
            power: PowerState::Off,
            bus: BusState::Default,
            ep0: Ep0State::Idle,
            ep0_data: Vec::new(),
            ep0_ptr: 0,
            ep0_maxcnt: 0,
            ep0_short: false,
            epinen: false,
            epouten: false,
            epout1: EpOut1State::Idle,
            epout1_size: 0,
            epout1_packet: None,
            epin1_packet: None,
            epin1_busy: false,
            pool: Pool::new(NPACKETS),
            claimed: false,
        };
        proof {
            assert(r@.ep0_data =~= usbd_init().ep0_data);
            assert(r@ == usbd_init());
        }
        r
    }

    /// Handles one power-peripheral interrupt: `event` is the pending event
    /// taken from the flags (if any) and `clock_stable` is whether the
    /// high-frequency clock has already stabilized.
    pub fn on_power_irq(&mut self, event: Option<PowerEvent>, clock_stable: bool) -> (r: Action)
        requires
            usbd_wf(old(self)@),
        ensures
            usbd_wf(final(self)@),
            ({
                let (p2, a) = power_step(old(self)@.power, event, clock_stable);
                final(self)@ == (UsbdV { power: p2, ..old(self)@ }) && r == a
            }),
    {
        match self.power {
            PowerState::Off => {
                if event.is_none() {
                    Action::Nothing
                } else if matches!(event, Some(PowerEvent::USBDETECTED)) {
                    self.power = PowerState::RampUp {
                        clock: clock_stable,
                        power: false,
                        usb: false,
                    };
                    Action::EnableUsbPeripheral
                } else {
                    Action::FatalUnreachable
                }
            },
            PowerState::RampUp { clock, power, usb } => {
                if !clock && event.is_none() {
                    if power && usb {
                        self.power = PowerState::Ready;
                        Action::ConnectPullUp
                    } else {
                        self.power = PowerState::RampUp { clock: true, power, usb };
                        Action::Nothing
                    }
                } else if power {
                    Action::FatalUnreachable
                } else if event.is_none() {
                    Action::Nothing
                } else if matches!(event, Some(PowerEvent::USBPWRRDY)) {
                    if clock && usb {
                        self.power = PowerState::Ready;
                        Action::ConnectPullUp
                    } else {
                        self.power = PowerState::RampUp { clock, power: true, usb };
                        Action::Nothing
                    }
                } else {
                    Action::FatalUnreachable
                }
            },
            PowerState::Ready => Action::FatalUnimplemented,
        }
    }

    /// Starts a control read transfer of `data` on endpoint 0 IN.
    pub fn start_epin0(&mut self, data: Vec<u8>) -> (r: Action)
        requires
            usbd_wf(old(self)@),
            old(self)@.ep0 is Idle,
            data@.len() <= 0xffff,
        ensures
            usbd_wf(final(self)@),
            ({
                let (v2, a) = ep0_start_apply(old(self)@, data@);
                final(self)@ == v2 && r == a
            }),
    {
        let len_bytes: usize = data.len();
        let len: u16 = len_bytes as u16;
        let maxcnt: u8;
        let short: bool;
        let leftover: u16;
        if len <= 64 {
            maxcnt = len as u8;
            short = true;
            leftover = 0;
        } else {
            maxcnt = 64;
            short = false;
            leftover = len - 64;
        }
        self.ep0 = Ep0State::Write { leftover };
        self.ep0_data = data;
        self.ep0_ptr = 0;
        self.ep0_maxcnt = maxcnt;
        self.ep0_short = short;
        Action::StartEpIn0 { offset: 0, count: maxcnt, status_after: short }
    }

    /// Continues a control read after a data-sent completion that left bytes
    /// to send.
    pub fn continue_epin0(&mut self) -> (r: Action)
        requires
            usbd_wf(old(self)@),
            old(self)@.ep0 matches Ep0State::Write { leftover } && leftover > 0,
        ensures
            usbd_wf(final(self)@),
            ({
                let (v2, a) = ep0_continue_apply(old(self)@);
                final(self)@ == v2 && r == a
            }),
    {
        let leftover = match self.ep0 {
            Ep0State::Write { leftover } => leftover,
            Ep0State::Idle => 0,
        };
        let ptr2: u16 = self.ep0_ptr + 64;
        self.ep0_ptr = ptr2;
        if leftover <= 64 {
            let maxcnt = leftover as u8;
            self.ep0 = Ep0State::Write { leftover: 0 };
            self.ep0_maxcnt = maxcnt;
            self.ep0_short = true;
            Action::StartEpIn0 { offset: ptr2, count: maxcnt, status_after: true }
        } else {
            self.ep0 = Ep0State::Write { leftover: leftover - 64 };
            Action::StartEpIn0 { offset: ptr2, count: 64, status_after: false }
        }
    }

    /// Services one SETUP packet; endpoint 0 must be idle (the dispatcher
    /// treats a SETUP during a transfer as a protocol violation).
    fn ep0setup(&mut self, s: SetupPacket) -> (r: Action)
        requires
            usbd_wf(old(self)@),
            old(self)@.ep0 is Idle,
        ensures
            usbd_wf(final(self)@),
            ({
                let (v2, a) = apply_ep0_setup(old(self)@, s);
                final(self)@ == v2 && r == a
            }),
    {
        let wvalueh: u8 = (s.wvalue >> 8) as u8;
        let wvaluel: u8 = (s.wvalue & 0xff) as u8;
        if s.bmrequesttype == 0x80 && s.brequest == GET_DESCRIPTOR {
            match DescriptorType::try_from(wvalueh) {
                Some(DescriptorType::Device) => {
                    if wvaluel == 0 && s.windex == 0 {
                        let mut data = device_descriptor();
                        if (s.wlength as usize) < data.len() {
                            data.truncate(s.wlength as usize);
                        }
                        self.start_epin0(data)
                    } else {
                        Action::FatalUnimplemented
                    }
                },
                Some(DescriptorType::Configuration) => {
                    if s.windex == 0 {
                        if wvaluel == 0 {
                            let mut data = config_descriptor();
                            if (s.wlength as usize) < data.len() {
                                data.truncate(s.wlength as usize);
                            }
                            self.start_epin0(data)
                        } else {
                            Action::Ep0Stall
                        }
                    } else {
                        Action::FatalUnimplemented
                    }
                },
                Some(DescriptorType::DeviceQualifier) => Action::Ep0Stall,
                Some(_) => Action::FatalUnimplemented,
                None => Action::Ep0Stall,
            }
        } else if s.bmrequesttype == 0 && s.brequest == SET_ADDRESS {
            if !matches!(self.bus, BusState::Default) {
                Action::FatalUnreachable
            } else if s.wvalue < 128 && s.windex == 0 && s.wlength == 0 {
                self.bus = BusState::Address;
                Action::Nothing
            } else {
                Action::Ep0Stall
            }
        } else if s.bmrequesttype == 0 && s.brequest == SET_CONFIGURATION {
            if wvalueh == 0 && s.windex == 0 && s.wlength == 0 && wvaluel <= NCONFIGS {
                if matches!(self.bus, BusState::Default) {
                    Action::FatalUnreachable
                } else if wvaluel == 0 {
                    self.bus = BusState::Address;
                    Action::FatalUnimplemented
                } else {
                    self.bus = BusState::Configured { configuration: wvaluel };
                    self.epinen = true;
                    self.epouten = true;
                    Action::EnableEndpoints
                }
            } else {
                Action::Ep0Stall
            }
        } else {
            Action::FatalUnimplemented
        }
    }

    /// Handles one bus-peripheral interrupt, dispatching on the event and the
    /// register snapshot in `inp`.
    pub fn on_usbd_irq(&mut self, inp: UsbdIrqInput) -> (r: Action)
        requires
            usbd_wf(old(self)@),
        ensures
            usbd_wf(final(self)@),
            ({
                let (v2, a) = usbd_step(old(self)@, inp);
                final(self)@ == v2 && r == a
            }),
    {
        match self.power {
            PowerState::Off => Action::FatalUnreachable,
            PowerState::RampUp { clock, power, usb } => {
                if matches!(inp.event, UsbdEvent::USBEVENT) {
                    if !inp.eventcause.ready {
                        Action::FatalUnreachable
                    } else if !usb {
                        if clock && power {
                            self.power = PowerState::Ready;
                            Action::ConnectPullUp
                        } else {
                            self.power = PowerState::RampUp { clock, power, usb: true };
                            Action::Nothing
                        }
                    } else {
                        Action::FatalUnreachable
                    }
                } else {
                    Action::FatalUnreachable
                }
            },
            PowerState::Ready => match inp.event {
                UsbdEvent::USBEVENT => {
                    if inp.eventcause.suspend {
                        Action::EnterLowPower
                    } else if inp.eventcause.resume {
                        Action::LeaveLowPower
                    } else {
                        Action::FatalUnimplemented
                    }
                },
                UsbdEvent::USBRESET => match self.bus {
                    BusState::Configured { .. } => Action::FatalUnimplemented,
                    _ => {
                        self.bus = BusState::Default;
                        Action::Nothing
                    },
                },
                UsbdEvent::EP0SETUP => {
                    if matches!(self.ep0, Ep0State::Idle) {
                        self.ep0setup(inp.setup)
                    } else {
                        Action::FatalUnreachable
                    }
                },
                UsbdEvent::EP0DATADONE => match self.ep0 {
                    Ep0State::Write { leftover } => {
                        if leftover != 0 {
                            self.continue_epin0()
                        } else {
                            self.ep0 = Ep0State::Idle;
                            Action::Nothing
                        }
                    },
                    Ep0State::Idle => Action::FatalUnreachable,
                },
                UsbdEvent::ENDEPIN1 => {
                    let taken = self.epin1_packet.take();
                    match taken {
                        Some(p) => {
                            self.pool.release(p);
                            Action::Nothing
                        },
                        None => Action::FatalUnreachable,
                    }
                },
                UsbdEvent::ENDEPOUT1 => {
                    if matches!(self.epout1, EpOut1State::TransferInProgress) {
                        self.epout1 = EpOut1State::Idle;
                        Action::Nothing
                    } else {
                        Action::FatalUnreachable
                    }
                },
                UsbdEvent::EPDATA => {
                    if inp.epdatastatus.epin1 {
                        self.epin1_busy = false;
                    }
                    if inp.epdatastatus.epout1 {
                        match self.epout1 {
                            EpOut1State::Idle => {
                                self.epout1 = EpOut1State::DataReady;
                                Action::Nothing
                            },
                            EpOut1State::BufferReady => {
                                self.epout1 = EpOut1State::TransferInProgress;
                                self.epout1_size = inp.size_epout1;
                                Action::StartEpOut1 { size: inp.size_epout1 }
                            },
                            _ => Action::FatalUnreachable,
                        }
                    } else {
                        Action::Nothing
                    }
                },
            },
        }
    }

    /// The hardware's DMA write into the armed bulk OUT buffer: only possible
    /// while a transfer is in progress, when the hardware owns the buffer.
    pub fn epout1_dma_write(&mut self, data: &[u8])
        requires
            usbd_wf(old(self)@),
            old(self)@.epout1 is TransferInProgress,
            data@.len() <= 64,
        ensures
            usbd_wf(final(self)@),
            (old(self)@.epout1_buffer matches Some(p) ==> final(self)@ == (UsbdV {
                epout1_buffer: final(self)@.epout1_buffer,
                ..old(self)@
            }) && (final(self)@.epout1_buffer matches Some(q) && q.slot_id() == p.slot_id()
                && q.wf() && q.storage() == data@ + p.storage().skip(data@.len() as int))),
    {
        let taken = self.epout1_packet.take();
        let mut p = taken.unwrap();
        p.copy_from_slice(data);
        proof {
            assert(p.storage() =~= data@ + old(self)@.epout1_buffer.unwrap().storage().skip(
                data@.len() as int,
            ));
        }
        self.epout1_packet = Some(p);
    }

    /// Allocates a packet for the application; `None` while the pool is
    /// exhausted (the caller must wait for a release and retry).
    pub fn allocate_packet(&mut self) -> (r: Option<Packet>)
        requires
            usbd_wf(old(self)@),
        ensures
            usbd_wf(final(self)@),
            match r {
                Some(p) => {
                    &&& p.wf()
                    &&& p.spec_len() == 0
                    &&& 0 <= p.slot_id() < old(self)@.pool.len()
                    &&& !old(self)@.pool[p.slot_id()]
                    &&& final(self)@ == (UsbdV {
                        pool: old(self)@.pool.update(p.slot_id(), true),
                        ..old(self)@
                    })
                    &&& (final(self)@.epout1_buffer matches Some(q) ==> q.slot_id()
                        != p.slot_id())
                    &&& (final(self)@.epin1_buffer matches Some(q) ==> q.slot_id() != p.slot_id())
                },
                None => {
                    &&& final(self)@ == old(self)@
                    &&& forall|j: int| 0 <= j < old(self)@.pool.len() ==> old(self)@.pool[j]
                },
            },
    {
        self.pool.allocate()
    }

    /// The power sequencing state.
    pub fn power_state(&self) -> (r: PowerState)
        ensures
            r == self@.power,
    {
        self.power
    }

    /// The enumeration state.
    pub fn bus_state(&self) -> (r: BusState)
        ensures
            r == self@.bus,
    {
        self.bus
    }

    /// The control-read continuation state.
    pub fn ep0_state(&self) -> (r: Ep0State)
        ensures
            r == self@.ep0,
    {
        self.ep0
    }

    /// The bulk OUT hand-off state.
    pub fn epout1_state(&self) -> (r: EpOut1State)
        ensures
            r == self@.epout1,
    {
        self.epout1
    }

    /// Whether a bulk IN transfer is outstanding.
    pub fn epin1_busy(&self) -> (r: bool)
        ensures
            r == self@.epin1_busy,
    {
        self.epin1_busy
    }

    /// The size register value captured when the bulk OUT transfer started.
    pub fn epout1_size(&self) -> (r: u8)
        ensures
            r == self@.epout1_size,
    {
        self.epout1_size
    }

    /// Whether the bulk IN and OUT endpoints are enabled.
    pub fn endpoints_enabled(&self) -> (r: (bool, bool))
        ensures
            r.0 == self@.epinen,
            r.1 == self@.epouten,
    {
        (self.epinen, self.epouten)
    }

    /// Returns an application-held packet's slot to the pool.
    pub fn release_packet(&mut self, p: Packet)
        requires
            usbd_wf(old(self)@),
            0 <= p.slot_id() < old(self)@.pool.len(),
            old(self)@.pool[p.slot_id()],
            (old(self)@.epout1_buffer matches Some(q) ==> q.slot_id() != p.slot_id()),
            (old(self)@.epin1_buffer matches Some(q) ==> q.slot_id() != p.slot_id()),
        ensures
            usbd_wf(final(self)@),
            final(self)@ == (UsbdV {
                pool: old(self)@.pool.update(p.slot_id(), false),
                ..old(self)@
            }),
    {
        self.pool.release(p);
    }
}

/// The control-read machine follows `chunk_sizes`: starting a transfer of
/// `n >= 1` bytes sends `chunk_sizes(n)[0]` bytes and records the rest as
/// leftover, and each continuation step with `l` bytes leftover sends
/// `chunk_sizes(l)[0]` bytes and keeps the rest — so a whole transfer emits
/// exactly the packets of `chunk_sizes(n)`, one per data-sent completion.
pub proof fn lemma_control_read_follows_chunks(v: UsbdV, data: Seq<u8>)
    requires
        usbd_wf(v),
        1 <= data.len() <= 0xffff,
    ensures
        ({
            let (v2, a) = ep0_start_apply(v, data);
            &&& a matches Action::StartEpIn0 { count, .. } && count as int == crate::ep0::chunk_sizes(
                data.len() as int,
            )[0]
            &&& v2.ep0 matches Ep0State::Write { leftover } && data.len() == first_chunk(
                data.len() as int,
            ) + leftover
        }),
        (match v.ep0 {
            Ep0State::Write { leftover } => leftover > 0 ==> ({
                let (v2, a) = ep0_continue_apply(v);
                &&& a matches Action::StartEpIn0 { count, .. } && count as int
                    == crate::ep0::chunk_sizes(leftover as int)[0]
                &&& v2.ep0 matches Ep0State::Write { leftover: l2 } && leftover == first_chunk(
                    leftover as int,
                ) + l2
            }),
            Ep0State::Idle => true,
        }),
{
    crate::ep0::lemma_chunk_unfold(data.len() as int);
    match v.ep0 {
        Ep0State::Write { leftover } => {
            if leftover > 0 {
                crate::ep0::lemma_chunk_unfold(leftover as int);
            }
        },
        Ep0State::Idle => {},
    }
}

impl Packet {
    /// Returns an empty USB packet backed by a free pool slot, or `None`
    /// while the pool is exhausted (the caller must wait for a release and
    /// retry).
    pub fn new(dev: &mut Usbd) -> (r: Option<Packet>)
        requires
            usbd_wf(old(dev)@),
        ensures
            usbd_wf(final(dev)@),
            match r {
                Some(p) => {
                    &&& p.wf()
                    &&& p.spec_len() == 0
                    &&& 0 <= p.slot_id() < old(dev)@.pool.len()
                    &&& !old(dev)@.pool[p.slot_id()]
                    &&& final(dev)@ == (UsbdV {
                        pool: old(dev)@.pool.update(p.slot_id(), true),
                        ..old(dev)@
                    })
                    &&& (final(dev)@.epout1_buffer matches Some(q) ==> q.slot_id()
                        != p.slot_id())
                    &&& (final(dev)@.epin1_buffer matches Some(q) ==> q.slot_id() != p.slot_id())
                },
                None => {
                    &&& final(dev)@ == old(dev)@
                    &&& forall|j: int| 0 <= j < old(dev)@.pool.len() ==> old(dev)@.pool[j]
                },
            },
    {
        dev.allocate_packet()
    }
}

/// Claims the USB interface: hands out the bulk endpoint pair exactly once.
/// A second claim reports `None` (the original halts there; a caller that
/// must have the endpoints treats `None` as fatal).
pub fn claim(dev: &mut Usbd) -> (r: Option<(BulkIn, BulkOut)>)
    requires
        usbd_wf(old(dev)@),
    ensures
        usbd_wf(final(dev)@),
        r is Some <==> !old(dev)@.claimed,
        final(dev)@ == (UsbdV { claimed: true, ..old(dev)@ }),
{
    if !dev.claimed {
        dev.claimed = true;
        Some((BulkIn { _private: () }, BulkOut { _private: () }))
    } else {
        None
    }
}

} // verus!
