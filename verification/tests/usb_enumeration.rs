use usbd::Action;
use usbd::bulk::EpOut1State;
use usbd::device::{EpDataStatus, EventCause, Usbd, UsbdEvent, UsbdIrqInput, claim};
use usbd::ep0::{BusState, Ep0State, SetupPacket};
use usbd::power::{PowerEvent, PowerState};
use usb2::StandardRequest;

fn quiet_cause() -> EventCause {
    EventCause { ready: false, suspend: false, resume: false }
}

fn irq(event: UsbdEvent) -> UsbdIrqInput {
    UsbdIrqInput {
        event,
        eventcause: quiet_cause(),
        epdatastatus: EpDataStatus { epin1: false, epout1: false },
        size_epout1: 0,
        setup: SetupPacket { bmrequesttype: 0, brequest: 0, wvalue: 0, windex: 0, wlength: 0 },
    }
}

fn setup_irq(s: SetupPacket) -> UsbdIrqInput {
    UsbdIrqInput { setup: s, ..irq(UsbdEvent::EP0SETUP) }
}

/// Brings a fresh device to the Ready power state via the documented
/// rendezvous of the three readiness conditions.
fn ready_device() -> Usbd {
    let mut dev = Usbd::new();
    let a = dev.on_power_irq(Some(PowerEvent::USBDETECTED), true);
    assert_eq!(a, Action::EnableUsbPeripheral);
    let a = dev.on_power_irq(Some(PowerEvent::USBPWRRDY), true);
    assert_eq!(a, Action::Nothing);
    let a = dev.on_usbd_irq(UsbdIrqInput {
        eventcause: EventCause { ready: true, suspend: false, resume: false },
        ..irq(UsbdEvent::USBEVENT)
    });
    assert_eq!(a, Action::ConnectPullUp);
    assert_eq!(dev.power_state(), PowerState::Ready);
    dev
}

#[test]
fn get_device_descriptor_full_length_is_one_packet() {
    // GET_DESCRIPTOR(DEVICE, wLength=18) on an 18-byte descriptor: exactly
    // one data packet with the automatic status stage armed.
    let mut dev = ready_device();
    let a = dev.on_usbd_irq(setup_irq(SetupPacket {
        bmrequesttype: 0x80,
        brequest: 6,
        wvalue: 0x0100,
        windex: 0,
        wlength: 18,
    }));
    assert_eq!(a, Action::StartEpIn0 { offset: 0, count: 18, status_after: true });
    assert_eq!(dev.ep0_state(), Ep0State::Write { leftover: 0 });
    // the data-sent completion ends the transfer; no further packet follows
    let a = dev.on_usbd_irq(irq(UsbdEvent::EP0DATADONE));
    assert_eq!(a, Action::Nothing);
    assert_eq!(dev.ep0_state(), Ep0State::Idle);
}

#[test]
fn get_device_descriptor_truncates_to_wlength() {
    let mut dev = ready_device();
    let a = dev.on_usbd_irq(setup_irq(SetupPacket {
        bmrequesttype: 0x80,
        brequest: 6,
        wvalue: 0x0100,
        windex: 0,
        wlength: 8,
    }));
    assert_eq!(a, Action::StartEpIn0 { offset: 0, count: 8, status_after: true });
}

#[test]
fn get_configuration_descriptor() {
    let mut dev = ready_device();
    let a = dev.on_usbd_irq(setup_irq(SetupPacket {
        bmrequesttype: 0x80,
        brequest: 6,
        wvalue: 0x0200,
        windex: 0,
        wlength: 255,
    }));
    // the configuration descriptor is 40 bytes in all
    assert_eq!(a, Action::StartEpIn0 { offset: 0, count: 40, status_after: true });
}

#[test]
fn get_descriptor_nonexistent_configuration_stalls() {
    let mut dev = ready_device();
    let a = dev.on_usbd_irq(setup_irq(SetupPacket {
        bmrequesttype: 0x80,
        brequest: 6,
        wvalue: 0x0201,
        windex: 0,
        wlength: 9,
    }));
    assert_eq!(a, Action::Ep0Stall);
}

#[test]
fn get_descriptor_device_qualifier_stalls() {
    // a full-speed-only device does not support the device qualifier
    let mut dev = ready_device();
    let a = dev.on_usbd_irq(setup_irq(SetupPacket {
        bmrequesttype: 0x80,
        brequest: 6,
        wvalue: 0x0600,
        windex: 0,
        wlength: 10,
    }));
    assert_eq!(a, Action::Ep0Stall);
}

#[test]
fn get_descriptor_unknown_type_stalls() {
    let mut dev = ready_device();
    let a = dev.on_usbd_irq(setup_irq(SetupPacket {
        bmrequesttype: 0x80,
        brequest: 6,
        wvalue: 0x0000,
        windex: 0,
        wlength: 10,
    }));
    assert_eq!(a, Action::Ep0Stall);
}

#[test]
fn get_descriptor_string_is_fatal_stub() {
    let mut dev = ready_device();
    let a = dev.on_usbd_irq(setup_irq(SetupPacket {
        bmrequesttype: 0x80,
        brequest: 6,
        wvalue: 0x0300,
        windex: 0,
        wlength: 255,
    }));
    assert_eq!(a, Action::FatalUnimplemented);
}

#[test]
fn set_address_in_default_needs_no_status_action() {
    // SET_ADDRESS(5) in Default with wIndex=0, wLength=0 moves to Address
    // with no further software action.
    let mut dev = ready_device();
    let a = dev.on_usbd_irq(setup_irq(SetupPacket {
        bmrequesttype: 0,
        brequest: 5,
        wvalue: 5,
        windex: 0,
        wlength: 0,
    }));
    assert_eq!(a, Action::Nothing);
    assert_eq!(dev.bus_state(), BusState::Address);
}

#[test]
fn set_address_invalid_parameters_stall() {
    let mut dev = ready_device();
    // address out of range
    let a = dev.on_usbd_irq(setup_irq(SetupPacket {
        bmrequesttype: 0,
        brequest: 5,
        wvalue: 128,
        windex: 0,
        wlength: 0,
    }));
    assert_eq!(a, Action::Ep0Stall);
    assert_eq!(dev.bus_state(), BusState::Default);
    // nonzero wIndex
    let a = dev.on_usbd_irq(setup_irq(SetupPacket {
        bmrequesttype: 0,
        brequest: 5,
        wvalue: 5,
        windex: 1,
        wlength: 0,
    }));
    assert_eq!(a, Action::Ep0Stall);
    // nonzero wLength
    let a = dev.on_usbd_irq(setup_irq(SetupPacket {
        bmrequesttype: 0,
        brequest: 5,
        wvalue: 5,
        windex: 0,
        wlength: 1,
    }));
    assert_eq!(a, Action::Ep0Stall);
    assert_eq!(dev.bus_state(), BusState::Default);
}

#[test]
fn set_configuration_in_address_enables_endpoints() {
    // SET_CONFIGURATION(1) in Address moves to Configured{1}, enables both
    // bulk endpoints and issues a status stage without a data phase.
    let mut dev = ready_device();
    dev.on_usbd_irq(setup_irq(SetupPacket {
        bmrequesttype: 0,
        brequest: 5,
        wvalue: 5,
        windex: 0,
        wlength: 0,
    }));
    assert_eq!(dev.endpoints_enabled(), (false, false));
    let a = dev.on_usbd_irq(setup_irq(SetupPacket {
        bmrequesttype: 0,
        brequest: 9,
        wvalue: 1,
        windex: 0,
        wlength: 0,
    }));
    assert_eq!(a, Action::EnableEndpoints);
    assert_eq!(dev.bus_state(), BusState::Configured { configuration: 1 });
    assert_eq!(dev.endpoints_enabled(), (true, true));
    assert_eq!(dev.ep0_state(), Ep0State::Idle);
}

#[test]
fn set_configuration_in_default_is_fatal() {
    let mut dev = ready_device();
    let a = dev.on_usbd_irq(setup_irq(SetupPacket {
        bmrequesttype: 0,
        brequest: 9,
        wvalue: 1,
        windex: 0,
        wlength: 0,
    }));
    assert_eq!(a, Action::FatalUnreachable);
}

#[test]
fn set_configuration_zero_is_deferred_stub() {
    let mut dev = ready_device();
    dev.on_usbd_irq(setup_irq(SetupPacket {
        bmrequesttype: 0,
        brequest: 5,
        wvalue: 5,
        windex: 0,
        wlength: 0,
    }));
    let a = dev.on_usbd_irq(setup_irq(SetupPacket {
        bmrequesttype: 0,
        brequest: 9,
        wvalue: 0,
        windex: 0,
        wlength: 0,
    }));
    assert_eq!(a, Action::FatalUnimplemented);
}

#[test]
fn set_configuration_out_of_range_stalls() {
    let mut dev = ready_device();
    dev.on_usbd_irq(setup_irq(SetupPacket {
        bmrequesttype: 0,
        brequest: 5,
        wvalue: 5,
        windex: 0,
        wlength: 0,
    }));
    let a = dev.on_usbd_irq(setup_irq(SetupPacket {
        bmrequesttype: 0,
        brequest: 9,
        wvalue: 2,
        windex: 0,
        wlength: 0,
    }));
    assert_eq!(a, Action::Ep0Stall);
    assert_eq!(dev.bus_state(), BusState::Address);
}

#[test]
fn unsupported_request_is_fatal_stub() {
    // GET_STATUS is not implemented: fail loud rather than misbehave
    let mut dev = ready_device();
    let a = dev.on_usbd_irq(setup_irq(SetupPacket {
        bmrequesttype: 0x80,
        brequest: 0,
        wvalue: 0,
        windex: 0,
        wlength: 2,
    }));
    assert_eq!(a, Action::FatalUnimplemented);
}

#[test]
fn usb_reset_returns_to_default() {
    let mut dev = ready_device();
    dev.on_usbd_irq(setup_irq(SetupPacket {
        bmrequesttype: 0,
        brequest: 5,
        wvalue: 5,
        windex: 0,
        wlength: 0,
    }));
    assert_eq!(dev.bus_state(), BusState::Address);
    let a = dev.on_usbd_irq(irq(UsbdEvent::USBRESET));
    assert_eq!(a, Action::Nothing);
    assert_eq!(dev.bus_state(), BusState::Default);
}

#[test]
fn usb_reset_while_configured_is_deferred_stub() {
    let mut dev = ready_device();
    dev.on_usbd_irq(setup_irq(SetupPacket {
        bmrequesttype: 0,
        brequest: 5,
        wvalue: 5,
        windex: 0,
        wlength: 0,
    }));
    dev.on_usbd_irq(setup_irq(SetupPacket {
        bmrequesttype: 0,
        brequest: 9,
        wvalue: 1,
        windex: 0,
        wlength: 0,
    }));
    let a = dev.on_usbd_irq(irq(UsbdEvent::USBRESET));
    assert_eq!(a, Action::FatalUnimplemented);
}

#[test]
fn suspend_and_resume_toggle_low_power() {
    let mut dev = ready_device();
    let a = dev.on_usbd_irq(UsbdIrqInput {
        eventcause: EventCause { ready: false, suspend: true, resume: false },
        ..irq(UsbdEvent::USBEVENT)
    });
    assert_eq!(a, Action::EnterLowPower);
    let a = dev.on_usbd_irq(UsbdIrqInput {
        eventcause: EventCause { ready: false, suspend: false, resume: true },
        ..irq(UsbdEvent::USBEVENT)
    });
    assert_eq!(a, Action::LeaveLowPower);
}

#[test]
fn setup_during_control_read_is_fatal() {
    let mut dev = ready_device();
    dev.on_usbd_irq(setup_irq(SetupPacket {
        bmrequesttype: 0x80,
        brequest: 6,
        wvalue: 0x0100,
        windex: 0,
        wlength: 18,
    }));
    assert_eq!(dev.ep0_state(), Ep0State::Write { leftover: 0 });
    let a = dev.on_usbd_irq(setup_irq(SetupPacket {
        bmrequesttype: 0x80,
        brequest: 6,
        wvalue: 0x0100,
        windex: 0,
        wlength: 18,
    }));
    assert_eq!(a, Action::FatalUnreachable);
}

#[test]
fn data_done_while_idle_is_fatal() {
    let mut dev = ready_device();
    let a = dev.on_usbd_irq(irq(UsbdEvent::EP0DATADONE));
    assert_eq!(a, Action::FatalUnreachable);
}

#[test]
fn claim_hands_out_the_endpoints_once() {
    let mut dev = Usbd::new();
    assert!(claim(&mut dev).is_some());
    assert!(claim(&mut dev).is_none());
}

#[test]
fn epout_state_starts_idle() {
    let dev = Usbd::new();
    assert_eq!(dev.epout1_state(), EpOut1State::Idle);
    assert!(!dev.epin1_busy());
}

#[test]
fn supported_requests_agree_with_usb2() {
    // the requests this driver implements parse as the matching standard
    // requests in the usb2 protocol crate
    match StandardRequest::parse(0x80, 6, 0x0100, 0, 18) {
        Ok(StandardRequest::GetDescriptor { descriptor: usb2::GetDescriptor::Device, length }) => {
            assert_eq!(length, 18);
        }
        other => panic!("usb2 disagrees on GET_DESCRIPTOR(DEVICE): {:?}", other),
    }
    match StandardRequest::parse(0, 5, 5, 0, 0) {
        Ok(StandardRequest::SetAddress { address }) => {
            assert_eq!(address.map(|a| a.get()), Some(5));
        }
        other => panic!("usb2 disagrees on SET_ADDRESS: {:?}", other),
    }
    match StandardRequest::parse(0, 9, 1, 0, 0) {
        Ok(StandardRequest::SetConfiguration { value }) => {
            assert_eq!(value.map(|v| v.get()), Some(1));
        }
        other => panic!("usb2 disagrees on SET_CONFIGURATION: {:?}", other),
    }
    // and an input the driver stalls on is an error for usb2 as well
    assert!(StandardRequest::parse(0, 5, 5, 1, 0).is_err());
}
