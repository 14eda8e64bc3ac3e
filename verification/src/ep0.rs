//! Bus enumeration on endpoint 0: device state, standard-request decoding,
//! the static descriptor tables, and the control-read chunking discipline.
//!
//! A control read sends a descriptor to the host in packets of at most
//! `MAX_PACKET_SIZE0` bytes. When the remainder fits in one packet, the
//! hardware shortcut that issues an automatic status stage is armed and the
//! whole remainder goes out; otherwise one full-size packet goes out and the
//! leftover count is recorded in [`Ep0State::Write`].

use vstd::prelude::*;

use crate::Action;
use crate::NCONFIGS;

verus! {

/// USB device enumeration state, after the USB 2.0 device state diagram.
#[derive(Clone, Copy, Debug, PartialEq, Eq, Structural)]
pub enum BusState {
    /// Powered and reset, but not yet addressed.
    Default,
    /// An address has been assigned by SET_ADDRESS.
    Address,
    /// A configuration has been selected by SET_CONFIGURATION.
    Configured { configuration: u8 },
}

/// Continuation state of a control-read transfer on endpoint 0.
#[derive(Clone, Copy, Debug, PartialEq, Eq, Structural)]
pub enum Ep0State {
    /// No transfer is outstanding.
    Idle,
    /// A control read is in flight; `leftover` bytes remain to send after the
    /// packet the hardware is currently transmitting.
    Write { leftover: u16 },
}

/// The SET_ADDRESS request code (USB 2.0, table 9-4).
pub const SET_ADDRESS: u8 = 5;

/// The GET_DESCRIPTOR request code (USB 2.0, table 9-4).
pub const GET_DESCRIPTOR: u8 = 6;

/// The SET_CONFIGURATION request code (USB 2.0, table 9-4).
pub const SET_CONFIGURATION: u8 = 9;

/// A SETUP packet, as latched by the hardware request registers.
#[derive(Clone, Copy, Debug, PartialEq, Eq, Structural)]
pub struct SetupPacket {
    /// Request type bitmap: direction, type and recipient.
    pub bmrequesttype: u8,
    /// Request code.
    pub brequest: u8,
    /// Request value.
    pub wvalue: u16,
    /// Request index.
    pub windex: u16,
    /// Number of bytes to transfer in the data stage.
    pub wlength: u16,
}

impl SetupPacket {
    /// The high byte of `wvalue` (for GET_DESCRIPTOR: the descriptor type).
    pub open spec fn wvalueh(self) -> u8 {
        (self.wvalue >> 8) as u8
    }

    /// The low byte of `wvalue` (for GET_DESCRIPTOR: the descriptor index).
    pub open spec fn wvaluel(self) -> u8 {
        (self.wvalue & 0xff) as u8
    }
}

/// Descriptor types (USB 2.0, table 9-5, plus the interface association
/// descriptor of the engineering change notice).
#[derive(Clone, Copy, Debug, PartialEq, Eq, Structural)]
pub enum DescriptorType {
    /// Device descriptor.
    Device,
    /// Configuration descriptor.
    Configuration,
    /// String descriptor.
    String,
    /// Interface descriptor.
    Interface,
    /// Endpoint descriptor.
    Endpoint,
    /// Device qualifier descriptor.
    DeviceQualifier,
    /// Other speed configuration descriptor.
    OtherSpeedConfiguration,
    /// Interface power descriptor.
    InterfacePower,
    /// Interface association descriptor.
    InterfaceAssociation,
}

/// Which descriptor type the given wire value names, if any.
pub open spec fn descriptor_type_of(v: u8) -> Option<DescriptorType> {
    if v == 1 {
        Some(DescriptorType::Device)
    } else if v == 2 {
        Some(DescriptorType::Configuration)
    } else if v == 3 {
        Some(DescriptorType::String)
    } else if v == 4 {
        Some(DescriptorType::Interface)
    } else if v == 5 {
        Some(DescriptorType::Endpoint)
    } else if v == 6 {
        Some(DescriptorType::DeviceQualifier)
    } else if v == 7 {
        Some(DescriptorType::OtherSpeedConfiguration)
    } else if v == 8 {
        Some(DescriptorType::InterfacePower)
    } else if v == 11 {
        Some(DescriptorType::InterfaceAssociation)
    } else {
        None
    }
}

impl DescriptorType {
    /// Decodes a descriptor type from its wire value.
    pub fn try_from(v: u8) -> (r: Option<DescriptorType>)
        ensures
            r == descriptor_type_of(v),
    {
        match v {
            1 => Some(DescriptorType::Device),
            2 => Some(DescriptorType::Configuration),
            3 => Some(DescriptorType::String),
            4 => Some(DescriptorType::Interface),
            5 => Some(DescriptorType::Endpoint),
            6 => Some(DescriptorType::DeviceQualifier),
            7 => Some(DescriptorType::OtherSpeedConfiguration),
            8 => Some(DescriptorType::InterfacePower),
            11 => Some(DescriptorType::InterfaceAssociation),
            _ => None,
        }
    }
}

/// The device descriptor: a full-speed, single-configuration device of the
/// composite (interface association) device class, with 64-byte packets on
/// endpoint 0.
pub open spec fn device_desc() -> Seq<u8> {
    seq![
        18u8,  // bLength
        1u8,  // bDescriptorType: device
        0x00u8,
        0x02u8,  // bcdUSB 2.00
        0xefu8,  // bDeviceClass: miscellaneous
        0x02u8,  // bDeviceSubClass: common class
        0x01u8,  // bDeviceProtocol: interface association
        64u8,  // bMaxPacketSize0
        0x09u8,
        0x12u8,  // idVendor
        0x01u8,
        0x00u8,  // idProduct
        0x00u8,
        0x01u8,  // bcdDevice 1.00
        0u8,  // iManufacturer
        0u8,  // iProduct
        0u8,  // iSerialNumber
        1u8,  // bNumConfigurations
    ]
}

/// The configuration descriptor with its interface association, interface and
/// two bulk endpoint descriptors, as sent in one GET_DESCRIPTOR response.
pub open spec fn config_desc() -> Seq<u8> {
    seq![
        9u8,  // bLength
        2u8,  // bDescriptorType: configuration
        40u8,
        0u8,  // wTotalLength
        1u8,  // bNumInterfaces
        1u8,  // bConfigurationValue
        0u8,  // iConfiguration
        0x80u8,  // bmAttributes: bus powered
        125u8,  // bMaxPower: 250 mA
        // interface association
        8u8,
        11u8,
        0u8,  // bFirstInterface
        1u8,  // bInterfaceCount
        0xefu8,
        0x02u8,
        0x01u8,  // function class
        0u8,  // iFunction
        // interface
        9u8,
        4u8,
        0u8,  // bInterfaceNumber
        0u8,  // bAlternateSetting
        2u8,  // bNumEndpoints
        0xffu8,  // bInterfaceClass: vendor specific
        0u8,
        0u8,
        0u8,  // iInterface
        // bulk IN endpoint 1
        7u8,
        5u8,
        0x81u8,  // bEndpointAddress: IN 1
        0x02u8,  // bmAttributes: bulk
        64u8,
        0u8,  // wMaxPacketSize
        0u8,  // bInterval
        // bulk OUT endpoint 1
        7u8,
        5u8,
        0x01u8,  // bEndpointAddress: OUT 1
        0x02u8,  // bmAttributes: bulk
        64u8,
        0u8,  // wMaxPacketSize
        0u8,  // bInterval
    ]
}

/// Builds the device descriptor table.
pub fn device_descriptor() -> (r: Vec<u8>)
    ensures
        r@ == device_desc(),
{
    let r: Vec<u8> = vec![
        18u8,
        1,
        0x00,
        0x02,
        0xef,
        0x02,
        0x01,
        64,
        0x09,
        0x12,
        0x01,
        0x00,
        0x00,
        0x01,
        0,
        0,
        0,
        1,
    ];
    proof {
        assert(r@ =~= device_desc());
    }
    r
}

/// Builds the configuration descriptor table.
pub fn config_descriptor() -> (r: Vec<u8>)
    ensures
        r@ == config_desc(),
{
    let r: Vec<u8> = vec![
        9u8,
        2,
        40,
        0,
        1,
        1,
        0,
        0x80,
        125,
        8,
        11,
        0,
        1,
        0xef,
        0x02,
        0x01,
        0,
        9,
        4,
        0,
        0,
        2,
        0xff,
        0,
        0,
        0,
        7,
        5,
        0x81,
        0x02,
        64,
        0,
        0,
        7,
        5,
        0x01,
        0x02,
        64,
        0,
        0,
    ];
    proof {
        assert(r@ =~= config_desc());
    }
    r
}

/// The sizes of the packets in which a control read of `n` bytes is sent:
/// full 64-byte packets followed by one final packet holding the remainder
/// (the whole transfer, when it already fits in one packet).
pub open spec fn chunk_sizes(n: int) -> Seq<int>
    decreases n,
{
    if n <= 64 {
        seq![n]
    } else {
        seq![64int] + chunk_sizes(n - 64)
    }
}

/// Control-read chunking law: a descriptor of `n` bytes is sent in
/// `ceil(n / 64)` packets, each of exactly 64 bytes except the last, whose
/// size is `n % 64` — or 64 when `n` divides evenly (short-packet rule).
pub proof fn lemma_control_read_chunks(n: int)
    requires
        n >= 1,
    ensures
        chunk_sizes(n).len() == (n + 63) / 64,
        forall|i: int| 0 <= i < chunk_sizes(n).len() - 1 ==> chunk_sizes(n)[i] == 64,
        chunk_sizes(n).last() == if n % 64 == 0 {
            64int
        } else {
            n % 64
        },
    decreases n,
{
    if n <= 64 {
        assert((n + 63) / 64 == 1);
        if n < 64 {
            assert(n % 64 == n);
        } else {
            assert(n % 64 == 0);
        }
    } else {
        lemma_control_read_chunks(n - 64);
        let tail = chunk_sizes(n - 64);
        let whole = chunk_sizes(n);
        assert(whole == seq![64int] + tail);
        assert((n + 63) / 64 == (n - 1) / 64 + 1);
        assert((n - 64 + 63) / 64 == (n - 64 - 1) / 64 + 1) by {
            if (n - 64) <= 64 {
            }
        }
        assert(whole.len() == tail.len() + 1);
        assert(tail.len() == (n - 64 + 63) / 64);
        assert((n + 63) / 64 == (n - 64 + 63) / 64 + 1);
        assert(whole.last() == tail.last());
        assert(n % 64 == (n - 64) % 64);
        assert(forall|i: int| 1 <= i < whole.len() ==> whole[i] == tail[i - 1]);
    }
}

/// One step of the chunking discipline follows `chunk_sizes`: with `n` bytes
/// left to send, the next packet is `chunk_sizes(n)[0]` bytes — the whole
/// remainder when it fits, a full packet otherwise — and what remains after
/// it is sent in exactly the packets of `chunk_sizes(n - chunk_sizes(n)[0])`.
pub proof fn lemma_chunk_unfold(n: int)
    requires
        n >= 1,
    ensures
        chunk_sizes(n)[0] == first_chunk(n),
        n <= 64 ==> chunk_sizes(n) == seq![n],
        n > 64 ==> chunk_sizes(n) == seq![64int] + chunk_sizes(n - 64),
{
}

/// What one SETUP packet does: the next bus and endpoint-0 state, the
/// control-read data that starts flowing (if any), and the hardware action.
pub struct Ep0SetupStep {
    /// The enumeration state after the request.
    pub bus: BusState,
    /// The endpoint-0 continuation state after the request.
    pub ep0: Ep0State,
    /// When a control read begins, the full (already truncated) byte sequence
    /// it will send.
    pub start: Option<Seq<u8>>,
    /// The hardware action the caller must perform.
    pub action: Action,
}

/// The first packet of a control read of `n` bytes.
pub open spec fn first_chunk(n: int) -> int {
    if n <= 64 {
        n
    } else {
        64
    }
}

/// The endpoint-0 state right after a control read of `n` bytes has started.
pub open spec fn ep0_after_start(n: int) -> Ep0State {
    if n <= 64 {
        Ep0State::Write { leftover: 0 }
    } else {
        Ep0State::Write { leftover: (n - 64) as u16 }
    }
}

/// The step that starts a control read of `data` from enumeration state
/// `bus`: arm the short-packet/status-stage shortcut exactly when the whole
/// transfer fits in one packet, and send the first chunk.
pub open spec fn ep0_start_read(bus: BusState, data: Seq<u8>) -> Ep0SetupStep {
    Ep0SetupStep {
        bus,
        ep0: ep0_after_start(data.len() as int),
        start: Some(data),
        action: Action::StartEpIn0 {
            offset: 0,
            count: first_chunk(data.len() as int) as u8,
            status_after: data.len() <= 64,
        },
    }
}

/// A step that only performs `action`, leaving the enumeration state alone.
pub open spec fn ep0_no_change(bus: BusState, action: Action) -> Ep0SetupStep {
    Ep0SetupStep { bus, ep0: Ep0State::Idle, start: None, action }
}

/// `a` truncated to at most `n` bytes, as a descriptor is truncated to the
/// host-requested `wLength`.
pub open spec fn truncated(a: Seq<u8>, n: int) -> Seq<u8> {
    if n < a.len() {
        a.take(n)
    } else {
        a
    }
}

/// The enumeration state machine's transition for one SETUP packet arriving
/// while endpoint 0 is idle.
///
/// - GET_DESCRIPTOR(DEVICE, index 0, language 0) and
///   GET_DESCRIPTOR(CONFIGURATION, index 0, language 0) start a control read
///   of the matching table truncated to `wLength`;
///   GET_DESCRIPTOR(CONFIGURATION) with any other index stalls (the
///   configuration does not exist), GET_DESCRIPTOR(DEVICE_QUALIFIER) stalls
///   (a full-speed-only device does not support it), an unknown descriptor
///   type stalls, and the remaining descriptor types are unimplemented and
///   fatal.
/// - SET_ADDRESS outside the `Default` state is a protocol violation; with
///   address < 128, `wIndex` 0 and `wLength` 0 it moves to `Address` with no
///   further software action (the hardware issues the status stage); any
///   other parameters stall.
/// - SET_CONFIGURATION with high value byte, index and length 0 and a
///   configuration within range: in `Default` it is a protocol violation;
///   configuration 0 returns to `Address` but must cancel outstanding
///   transfers, which is an unimplemented (fatal) stub; configuration 1
///   enables the bulk endpoints and issues a status stage, moving to
///   `Configured`. Any other parameters stall.
/// - Every other request is an unimplemented (fatal) stub.
pub open spec fn ep0_setup_step(bus: BusState, s: SetupPacket) -> Ep0SetupStep {
    if s.bmrequesttype == 0x80 && s.brequest == GET_DESCRIPTOR {
        match descriptor_type_of(s.wvalueh()) {
            Some(DescriptorType::Device) => {
                if s.wvaluel() == 0 && s.windex == 0 {
                    ep0_start_read(bus, truncated(device_desc(), s.wlength as int))
                } else {
                    ep0_no_change(bus, Action::FatalUnimplemented)
                }
            },
            Some(DescriptorType::Configuration) => {
                if s.windex == 0 {
                    if s.wvaluel() == 0 {
                        ep0_start_read(bus, truncated(config_desc(), s.wlength as int))
                    } else {
                        ep0_no_change(bus, Action::Ep0Stall)
                    }
                } else {
                    ep0_no_change(bus, Action::FatalUnimplemented)
                }
            },
            Some(DescriptorType::DeviceQualifier) => ep0_no_change(bus, Action::Ep0Stall),
            Some(_) => ep0_no_change(bus, Action::FatalUnimplemented),
            None => ep0_no_change(bus, Action::Ep0Stall),
        }
    } else if s.bmrequesttype == 0 && s.brequest == SET_ADDRESS {
        if !(bus is Default) {
            ep0_no_change(bus, Action::FatalUnreachable)
        } else if s.wvalue < 128 && s.windex == 0 && s.wlength == 0 {
            ep0_no_change(BusState::Address, Action::Nothing)
        } else {
            ep0_no_change(bus, Action::Ep0Stall)
        }
    } else if s.bmrequesttype == 0 && s.brequest == SET_CONFIGURATION {
        if s.wvalueh() == 0 && s.windex == 0 && s.wlength == 0 && s.wvaluel() <= NCONFIGS {
            if bus is Default {
                ep0_no_change(bus, Action::FatalUnreachable)
            } else if s.wvaluel() == 0 {
                ep0_no_change(BusState::Address, Action::FatalUnimplemented)
            } else {
                ep0_no_change(
                    BusState::Configured { configuration: s.wvaluel() },
                    Action::EnableEndpoints,
                )
            }
        } else {
            ep0_no_change(bus, Action::Ep0Stall)
        }
    } else {
        ep0_no_change(bus, Action::FatalUnimplemented)
    }
}

} // verus!
