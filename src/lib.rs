//! Control-transfer and address-space partitioning core of a cell-based
//! x86-64 hypervisor: descriptor decoding, world-switch context capture and
//! restore plans, the trap register frame, and root-cell construction.

pub mod segment;
pub mod context;
pub mod regs;
pub mod memory;
pub mod cell;
