//! Why an operation of this library failed.

use vstd::prelude::*;

verus! {

/// The kind of entity that a lookup did not find.
#[derive(Clone, Copy, Debug, PartialEq, Eq, Structural)]
pub enum Entity {
    Peripheral,
    Register,
    Field,
}

/// Every failure is fatal to the run that met it: there is no partial result.
#[derive(Clone, Copy, Debug, PartialEq, Eq, Structural)]
pub enum Error {
    /// The description is malformed: a value that no device can have.
    Parse,
    /// A peripheral, register or field that was named does not exist.
    Lookup(Entity),
    /// The peripheral's name or base address is taken in the device.
    DuplicatePeripheral,
    /// The register's name is taken in the peripheral, or its bytes belong to
    /// a sibling that is not its alias.
    DuplicateRegister,
    /// The field's name is taken in the register, or its bits belong to
    /// another field or lie beyond the register's width.
    FieldOverlap,
    /// The variant key names no supported microcontroller.
    UnsupportedVariant,
}

impl Error {
    /// A short description for the user.
    pub fn message(&self) -> (r: &'static str)
        ensures
            r@ == self.message_text(),
    {
        match self {
            Error::Parse => "malformed device description",
            Error::Lookup(Entity::Peripheral) => "peripheral not found",
            Error::Lookup(Entity::Register) => "register not found",
            Error::Lookup(Entity::Field) => "field not found",
            Error::DuplicatePeripheral => "peripheral already present",
            Error::DuplicateRegister => "register already present",
            Error::FieldOverlap => "field overlaps another field",
            Error::UnsupportedVariant => "invalid `stm32_mcu` cfg flag",
        }
    }

    /// The text of `message`.
    pub open spec fn message_text(&self) -> Seq<char> {
        match self {
            Error::Parse => "malformed device description"@,
            Error::Lookup(Entity::Peripheral) => "peripheral not found"@,
            Error::Lookup(Entity::Register) => "register not found"@,
            Error::Lookup(Entity::Field) => "field not found"@,
            Error::DuplicatePeripheral => "peripheral already present"@,
            Error::DuplicateRegister => "register already present"@,
            Error::FieldOverlap => "field overlaps another field"@,
            Error::UnsupportedVariant => "invalid `stm32_mcu` cfg flag"@,
        }
    }
}

} // verus!
