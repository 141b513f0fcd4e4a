//! Register maps of a family of microcontrollers.
//!
//! A vendor describes a microcontroller as peripherals, registers and bit
//! fields. This library holds such a description as a device in which no
//! two fields of a register share a bit and no two registers of a
//! peripheral share a byte, unless both are declared aliases; applies the
//! corrections that a vendor's description needs, each checked before it
//! touches the device; and generates from the corrected device the
//! definitions of its registers and fields, the index of its registers by
//! peripheral and the definitions of its interrupts. Beside that it holds
//! the ownership schema of the GPIO ports: which registers and fields a port
//! exposes on which microcontroller, and which it shares with the other
//! ports.
//!
//! - `variant`: the supported microcontrollers and the keys that select them.
//! - `number`: the numbers of a description.
//! - `field`, `register`, `peripheral`, `device`: the description.
//! - `patch`: the corrections; `lasting`: what they add and leave in place.
//! - `program`: the named corrections of each microcontroller, in order.
//! - `emit`: what is generated.
//! - `schema`: the ownership schema; `bits`: how an owner touches its bits;
//!   `agreement`: whether a description says what the schema says.

pub mod agreement;
pub mod bits;
pub mod device;
pub mod emit;
pub mod error;
pub mod field;
pub mod lasting;
pub mod number;
pub mod patch;
pub mod peripheral;
pub mod program;
pub mod register;
pub mod schema;
pub mod text;
pub mod variant;

pub use crate::emit::{generate_regs, generate_rest};
