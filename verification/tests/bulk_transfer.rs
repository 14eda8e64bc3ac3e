use usbd::Action;
use usbd::bulk::EpOut1State;
use usbd::device::{EpDataStatus, EventCause, Usbd, UsbdEvent, UsbdIrqInput, claim};
use usbd::ep0::SetupPacket;
use usbd::pool::Packet;
use usbd::power::PowerEvent;

fn irq(event: UsbdEvent) -> UsbdIrqInput {
    UsbdIrqInput {
        event,
        eventcause: EventCause { ready: false, suspend: false, resume: false },
        epdatastatus: EpDataStatus { epin1: false, epout1: false },
        size_epout1: 0,
        setup: SetupPacket { bmrequesttype: 0, brequest: 0, wvalue: 0, windex: 0, wlength: 0 },
    }
}

fn epdata(epin1: bool, epout1: bool, size: u8) -> UsbdIrqInput {
    UsbdIrqInput {
        epdatastatus: EpDataStatus { epin1, epout1 },
        size_epout1: size,
        ..irq(UsbdEvent::EPDATA)
    }
}

/// A device powered up, enumerated and configured, with the endpoints
/// claimed.
fn configured() -> (Usbd, usbd::bulk::BulkIn, usbd::bulk::BulkOut) {
    let mut dev = Usbd::new();
    dev.on_power_irq(Some(PowerEvent::USBDETECTED), true);
    dev.on_power_irq(Some(PowerEvent::USBPWRRDY), true);
    dev.on_usbd_irq(UsbdIrqInput {
        eventcause: EventCause { ready: true, suspend: false, resume: false },
        ..irq(UsbdEvent::USBEVENT)
    });
    dev.on_usbd_irq(UsbdIrqInput {
        setup: SetupPacket { bmrequesttype: 0, brequest: 5, wvalue: 5, windex: 0, wlength: 0 },
        ..irq(UsbdEvent::EP0SETUP)
    });
    dev.on_usbd_irq(UsbdIrqInput {
        setup: SetupPacket { bmrequesttype: 0, brequest: 9, wvalue: 1, windex: 0, wlength: 0 },
        ..irq(UsbdEvent::EP0SETUP)
    });
    let (epin, epout) = claim(&mut dev).unwrap();
    (dev, epin, epout)
}

#[test]
fn read_before_data_arrives() {
    // an application read() followed later by host data arrival ends with the
    // hand-off idle and the packet length equal to the bytes received
    let (mut dev, _epin, mut epout) = configured();
    assert!(epout.is_enabled(&dev));
    let packet = Packet::new(&mut dev).unwrap();
    let a = epout.start_read(&mut dev, packet, 0);
    assert_eq!(a, Action::ArmEpOut1);
    assert_eq!(dev.epout1_state(), EpOut1State::BufferReady);
    assert!(!epout.read_done(&dev));
    // host data arrives: the interrupt handler starts the one DMA transfer
    let a = dev.on_usbd_irq(epdata(false, true, 13));
    assert_eq!(a, Action::StartEpOut1 { size: 13 });
    assert_eq!(dev.epout1_state(), EpOut1State::TransferInProgress);
    // the hardware copies the host bytes into the armed buffer
    dev.epout1_dma_write(&[7u8, 6, 5, 4, 3, 2, 1, 0, 9, 9, 9, 9, 9]);
    // the end-of-DMA event completes the hand-off
    let a = dev.on_usbd_irq(irq(UsbdEvent::ENDEPOUT1));
    assert_eq!(a, Action::Nothing);
    assert_eq!(dev.epout1_state(), EpOut1State::Idle);
    assert!(epout.read_done(&dev));
    let got = epout.finish_read(&mut dev);
    assert_eq!(got.len(), 13);
    assert_eq!(got.to_vec(), vec![7u8, 6, 5, 4, 3, 2, 1, 0, 9, 9, 9, 9, 9]);
}

#[test]
fn data_arrives_before_read() {
    // the opposite order: host data first, then the application read request
    let (mut dev, _epin, mut epout) = configured();
    let a = dev.on_usbd_irq(epdata(false, true, 3));
    assert_eq!(a, Action::Nothing);
    assert_eq!(dev.epout1_state(), EpOut1State::DataReady);
    let packet = Packet::new(&mut dev).unwrap();
    // the task reads the size register itself in this order
    let a = epout.start_read(&mut dev, packet, 3);
    assert_eq!(a, Action::StartEpOut1 { size: 3 });
    assert_eq!(dev.epout1_state(), EpOut1State::TransferInProgress);
    dev.epout1_dma_write(&[0xaa, 0xbb, 0xcc]);
    dev.on_usbd_irq(irq(UsbdEvent::ENDEPOUT1));
    assert!(epout.read_done(&dev));
    let got = epout.finish_read(&mut dev);
    assert_eq!(got.len(), 3);
    assert_eq!(got.to_vec(), vec![0xaa, 0xbb, 0xcc]);
    assert_eq!(dev.epout1_state(), EpOut1State::Idle);
}

#[test]
fn two_data_events_in_a_row_are_fatal() {
    let (mut dev, _epin, _epout) = configured();
    dev.on_usbd_irq(epdata(false, true, 8));
    assert_eq!(dev.on_usbd_irq(epdata(false, true, 8)), Action::FatalUnreachable);
}

#[test]
fn transfer_end_without_transfer_is_fatal() {
    let (mut dev, _epin, _epout) = configured();
    assert_eq!(dev.on_usbd_irq(irq(UsbdEvent::ENDEPOUT1)), Action::FatalUnreachable);
}

#[test]
fn write_hands_buffer_to_hardware_until_dma_ends() {
    let (mut dev, mut epin, _epout) = configured();
    assert!(epin.write_ready(&dev));
    let mut packet = Packet::new(&mut dev).unwrap();
    packet.copy_from_slice(&[1u8, 2, 3, 4]);
    let slot = packet.slot();
    let a = epin.write(&mut dev, packet);
    assert_eq!(a, Action::StartEpIn1 { count: 4 });
    assert!(dev.epin1_busy());
    assert!(!epin.write_ready(&dev));
    // the DMA read completes: the buffer returns to the pool
    assert_eq!(dev.on_usbd_irq(irq(UsbdEvent::ENDEPIN1)), Action::Nothing);
    // the freed slot is allocatable again
    let again = Packet::new(&mut dev).unwrap();
    assert_eq!(again.slot(), slot);
    // the host acknowledgement clears the busy flag
    dev.on_usbd_irq(epdata(true, false, 0));
    assert!(!dev.epin1_busy());
    assert!(epin.write_ready(&dev));
}

#[test]
fn end_of_dma_without_buffer_is_fatal() {
    let (mut dev, _epin, _epout) = configured();
    assert_eq!(dev.on_usbd_irq(irq(UsbdEvent::ENDEPIN1)), Action::FatalUnreachable);
}

#[test]
fn one_epdata_event_can_serve_both_endpoints() {
    let (mut dev, mut epin, _epout) = configured();
    let packet = Packet::new(&mut dev).unwrap();
    epin.write(&mut dev, packet);
    dev.on_usbd_irq(irq(UsbdEvent::ENDEPIN1));
    // the IN acknowledgement and an OUT arrival flagged in one event
    let a = dev.on_usbd_irq(epdata(true, true, 5));
    assert_eq!(a, Action::Nothing);
    assert!(!dev.epin1_busy());
    assert_eq!(dev.epout1_state(), EpOut1State::DataReady);
}

#[test]
fn endpoints_disabled_before_configuration() {
    let mut dev = Usbd::new();
    let (epin, epout) = claim(&mut dev).unwrap();
    assert!(!epout.is_enabled(&dev));
    assert!(!epin.write_ready(&dev));
}
