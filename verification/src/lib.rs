//! Interrupt-driven USB 2.0 full-speed device-controller driver, modeled as a
//! family of explicit state machines: power-up sequencing, bus enumeration on
//! endpoint 0, a ping-pong bulk transfer engine, and a fixed-capacity packet
//! pool. Hardware effects are returned as action values for the caller to
//! perform against the peripheral registers.

use vstd::prelude::*;

pub mod pool;
pub mod bulk;
pub mod device;
pub mod diag;
pub mod ep0;
pub mod log_stream;
pub mod power;
pub mod shell;

pub use bulk::{BulkIn, BulkOut};
pub use device::claim;
pub use pool::Packet;

verus! {

/// Largest number of data bytes in one packet on endpoint 0 and on the bulk
/// endpoints (full-speed USB).
pub const MAX_PACKET_SIZE0: u8 = 64;

/// Number of configurations the device supports.
pub const NCONFIGS: u8 = 1;

/// One hardware effect that a state-machine step asks its caller to perform
/// against the peripheral registers. The state machines decide; the
/// (unverified) register glue executes.
#[derive(Clone, Copy, Debug, PartialEq, Eq, Structural)]
pub enum Action {
    /// No register write is needed.
    Nothing,
    /// Apply the power-up erratum workaround and enable the USB peripheral.
    EnableUsbPeripheral,
    /// Assert the D+ pull-up: the device becomes visible to the host.
    ConnectPullUp,
    /// Enter low power mode (bus suspend).
    EnterLowPower,
    /// Leave low power mode (bus resume).
    LeaveLowPower,
    /// Start a DMA transfer of `count` bytes of the current control-read
    /// source, beginning at `offset`, on endpoint 0 IN. When `status_after`
    /// is set, the hardware shortcut that ends the transfer with an automatic
    /// status stage is armed.
    StartEpIn0 { offset: u16, count: u8, status_after: bool },
    /// Stall endpoint 0, rejecting the current request.
    Ep0Stall,
    /// Enable the bulk endpoints, reset the bulk OUT maximum packet size
    /// register to auto-detect, and issue a control status stage.
    EnableEndpoints,
    /// Write the armed read buffer's address to the bulk OUT pointer
    /// register, parking the buffer with the hardware until host data
    /// arrives.
    ArmEpOut1,
    /// Write the armed buffer's address and `size` to the bulk OUT pointer
    /// and maximum-count registers and start the DMA transfer.
    StartEpOut1 { size: u8 },
    /// Hand the armed buffer's `count` data bytes to the bulk IN endpoint and
    /// start the DMA transfer.
    StartEpIn1 { count: u8 },
    /// Protocol violation: an event arrived in a state that does not expect
    /// it. The driver detaches from the bus and halts.
    FatalUnreachable,
    /// Explicitly unimplemented feature: fail loud by detaching from the bus
    /// and halting rather than silently misbehaving.
    FatalUnimplemented,
}

/// True for the two fatal actions, on which the driver detaches from the bus
/// (clears the pull-up) and halts.
pub open spec fn is_fatal(a: Action) -> bool {
    a is FatalUnreachable || a is FatalUnimplemented
}

impl Action {
    /// True for the two fatal actions: the caller must detach from the bus
    /// and halt.
    pub fn is_fatal(&self) -> (r: bool)
        ensures
            r == is_fatal(*self),
    {
        match self {
            Action::FatalUnreachable => true,
            Action::FatalUnimplemented => true,
            _ => false,
        }
    }
}

} // verus!
