//! Bulk transfer engine: the ping-pong hand-off for the bulk OUT endpoint and
//! the busy-flag discipline for the bulk IN endpoint.
//!
//! The OUT endpoint reconciles two independently-arriving signals — "the
//! hardware has received data" and "the application armed a read buffer" —
//! which may occur in either order. Exactly one DMA transfer starts per
//! host-sent packet, once both signals are present, and the packet length the
//! application sees is always the hardware-reported size register value at
//! transfer start.

use vstd::prelude::*;

use crate::Action;
use crate::device::{Usbd, UsbdV, UsbdEvent, UsbdIrqInput, usbd_step, usbd_wf};
use crate::pool::Packet;

verus! {

/// Hand-off state of the bulk OUT endpoint.
#[derive(Clone, Copy, Debug, PartialEq, Eq, Structural)]
pub enum EpOut1State {
    /// Neither data nor a buffer is pending.
    Idle,
    /// The hardware holds host data, but no buffer has been armed yet.
    DataReady,
    /// A buffer has been armed, but no host data has arrived yet.
    BufferReady,
    /// Both signals were consumed atomically; the DMA transfer is running.
    TransferInProgress,
}

/// Bulk IN endpoint 1.
pub struct BulkIn {
    pub(crate) _private: (),
}

/// Bulk OUT endpoint 1.
pub struct BulkOut {
    pub(crate) _private: (),
}

/// The step taken when the application arms `p` as the read buffer: if host
/// data already waits, both signals are consumed at once and the transfer
/// starts with the size the hardware reported; otherwise the buffer parks
/// until the data event arrives.
pub open spec fn epout_read_start(v: UsbdV, p: Packet, size_epout1: u8) -> (UsbdV, Action) {
    if v.epout1 is DataReady {
        (
            UsbdV {
                epout1: EpOut1State::TransferInProgress,
                epout1_buffer: Some(p),
                epout1_size: size_epout1,
                ..v
            },
            Action::StartEpOut1 { size: size_epout1 },
        )
    } else {
        (
            UsbdV { epout1: EpOut1State::BufferReady, epout1_buffer: Some(p), ..v },
            Action::ArmEpOut1,
        )
    }
}

/// True once the armed read has completed: the transfer is over (the state
/// returned to `Idle`, or new host data is already waiting) and the buffer is
/// still parked for the application to collect.
pub open spec fn epout_read_done(v: UsbdV) -> bool {
    (v.epout1 is Idle || v.epout1 is DataReady) && v.epout1_buffer is Some
}

/// The step taken when the application hands `p` to the bulk IN endpoint:
/// ownership of the buffer moves to the hardware and the endpoint is busy
/// until the host acknowledges the data.
pub open spec fn epin_write_step(v: UsbdV, p: Packet) -> (UsbdV, Action) {
    (
        UsbdV { epin1_buffer: Some(p), epin1_busy: true, ..v },
        Action::StartEpIn1 { count: p.spec_len() },
    )
}

/// Bulk OUT hand-off law: whichever of the two independent signals arrives
/// first — the application's read request or the hardware-data event —
/// exactly one DMA transfer starts for the one host packet: the step that
/// sees both signals present starts it, the other step and the completion
/// event do not, and the size recorded for the resulting packet is the size
/// register value at the moment the transfer starts. Both orders end with the
/// hand-off idle and the completed buffer parked for collection.
pub proof fn lemma_epout_handoff_order_independent(
    v0: UsbdV,
    p: Packet,
    size_at_start: u8,
    size_other: u8,
    inp_data: UsbdIrqInput,
    inp_done: UsbdIrqInput,
)
    requires
        v0.power is Ready,
        v0.epout1 is Idle,
        inp_data.event == UsbdEvent::EPDATA,
        inp_data.epdatastatus.epout1,
        inp_data.size_epout1 == size_at_start,
        inp_done.event == UsbdEvent::ENDEPOUT1,
    ensures
// the read request arrives first: arming parks the buffer, the data
// event starts the one transfer

        ({
            let (va1, aa1) = epout_read_start(v0, p, size_other);
            let (va2, aa2) = usbd_step(va1, inp_data);
            let (va3, aa3) = usbd_step(va2, inp_done);
            &&& aa1 == Action::ArmEpOut1
            &&& aa2 == (Action::StartEpOut1 { size: size_at_start })
            &&& aa3 == Action::Nothing
            &&& va3.epout1 is Idle
            &&& va3.epout1_size == size_at_start
            &&& epout_read_done(va3)
        }),
        // the data event arrives first: it only records the arrival, and the
        // read request starts the one transfer with the size the hardware
        // reported
        ({
            let (vb1, ab1) = usbd_step(v0, inp_data);
            let (vb2, ab2) = epout_read_start(vb1, p, size_at_start);
            let (vb3, ab3) = usbd_step(vb2, inp_done);
            &&& ab1 == Action::Nothing
            &&& vb1.epout1 is DataReady
            &&& ab2 == (Action::StartEpOut1 { size: size_at_start })
            &&& ab3 == Action::Nothing
            &&& vb3.epout1 is Idle
            &&& vb3.epout1_size == size_at_start
            &&& epout_read_done(vb3)
        }),
{
}

impl BulkOut {
    /// True once SET_CONFIGURATION has enabled the endpoint; a read request
    /// waits for this first.
    pub fn is_enabled(&self, dev: &Usbd) -> (r: bool)
        ensures
            r == dev@.epouten,
    {
        dev.epouten
    }

    /// Arms `packet` as the DMA buffer for the next host packet. If the
    /// hardware-data event already arrived (`DataReady`), both signals are
    /// consumed at once: `size_epout1` — the size register value the caller
    /// just read — is recorded and the returned action starts the transfer.
    /// Otherwise the buffer parks with the hardware (`BufferReady`) and the
    /// returned action only writes the buffer address register.
    pub fn start_read(&mut self, dev: &mut Usbd, packet: Packet, size_epout1: u8) -> (r: Action)
        requires
            usbd_wf(old(dev)@),
            old(dev)@.epouten,
            packet.wf(),
            0 <= packet.slot_id() < old(dev)@.pool.len(),
            old(dev)@.pool[packet.slot_id()],
            old(dev)@.epout1_buffer is None,
            (old(dev)@.epin1_buffer matches Some(q) ==> q.slot_id() != packet.slot_id()),
            old(dev)@.epout1 is Idle || old(dev)@.epout1 is DataReady,
        ensures
            usbd_wf(final(dev)@),
            (final(dev)@, r) == epout_read_start(old(dev)@, packet, size_epout1),
    {
        let data_ready = matches!(dev.epout1, EpOut1State::DataReady);
        if data_ready {
            dev.epout1 = EpOut1State::TransferInProgress;
            dev.epout1_size = size_epout1;
            dev.epout1_packet = Some(packet);
            Action::StartEpOut1 { size: size_epout1 }
        } else {
            dev.epout1 = EpOut1State::BufferReady;
            dev.epout1_packet = Some(packet);
            Action::ArmEpOut1
        }
    }

    /// True once the armed read has completed and its packet can be
    /// collected.
    pub fn read_done(&self, dev: &Usbd) -> (r: bool)
        ensures
            r == epout_read_done(dev@),
    {
        (matches!(dev.epout1, EpOut1State::Idle) || matches!(dev.epout1, EpOut1State::DataReady))
            && dev.epout1_packet.is_some()
    }

    /// Collects the completed read: the returned packet's length is the size
    /// register value captured at transfer start (truncated to the packet
    /// capacity), and its data is what the DMA transfer wrote.
    pub fn finish_read(&mut self, dev: &mut Usbd) -> (r: Packet)
        requires
            usbd_wf(old(dev)@),
            epout_read_done(old(dev)@),
        ensures
            usbd_wf(final(dev)@),
            final(dev)@ == (UsbdV { epout1_buffer: None, ..old(dev)@ }),
            r.wf(),
            r.spec_len() == if old(dev)@.epout1_size <= 64 {
                old(dev)@.epout1_size
            } else {
                64u8
            },
            (old(dev)@.epout1_buffer matches Some(p) ==> r.slot_id() == p.slot_id()
                && r.storage() == p.storage()),
    {
        let taken = dev.epout1_packet.take();
        let mut p = taken.unwrap();
        p.set_len(dev.epout1_size);
        p
    }
}

impl BulkIn {
    /// True while the endpoint is enabled and no prior write is still waiting
    /// for its host acknowledgement; a write request waits for this.
    pub fn write_ready(&self, dev: &Usbd) -> (r: bool)
        ensures
            r == (dev@.epinen && !dev@.epin1_busy),
    {
        dev.epinen && !dev.epin1_busy
    }

    /// Sends `packet` to the host: hands the buffer to the hardware (it
    /// returns to the pool only when the end-of-DMA event fires), marks the
    /// endpoint busy, and returns the action that starts the transfer.
    pub fn write(&mut self, dev: &mut Usbd, packet: Packet) -> (r: Action)
        requires
            usbd_wf(old(dev)@),
            old(dev)@.epinen,
            !old(dev)@.epin1_busy,
            packet.wf(),
            0 <= packet.slot_id() < old(dev)@.pool.len(),
            old(dev)@.pool[packet.slot_id()],
            old(dev)@.epin1_buffer is None,
            (old(dev)@.epout1_buffer matches Some(q) ==> q.slot_id() != packet.slot_id()),
        ensures
            usbd_wf(final(dev)@),
            (final(dev)@, r) == epin_write_step(old(dev)@, packet),
    {
        let count = packet.len();
        dev.epin1_packet = Some(packet);
        dev.epin1_busy = true;
        Action::StartEpIn1 { count }
    }
}

} // verus!
