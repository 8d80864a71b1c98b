//! Software-interrupt numbering. Each link device owns one real-time signal,
//! and one more signal stands for the layer-3 soft-IRQ that drains the
//! protocol queues.

use vstd::prelude::*;

verus! {

pub const INTR_IRQ_SHARED: u8 = 0x01;

/// SIGRTMIN + 1 on the host.
pub const INTR_IRQ_BASE: i32 = 35;

pub const INTR_IRQ_NULL: i32 = INTR_IRQ_BASE;

pub const INTR_IRQ_LOOPBACK: i32 = INTR_IRQ_BASE + 1;

pub const INTR_IRQ_ETHERNET_TAP: i32 = INTR_IRQ_BASE + 2;

pub const INTR_IRQ_L3: i32 = INTR_IRQ_BASE + 3;

/// The immutable IRQ binding a device is registered with.
#[derive(Clone, Copy, Debug, PartialEq, Eq, Structural)]
pub struct IrqEntry {
    pub irq: i32,
    pub flags: u8,
}

} // verus!
