//! The ownership schema of the GPIO ports: which registers and fields a
//! port exposes on which variant, where their bits lie, and which registers
//! the ports share.

use vstd::prelude::*;
use vstd::string::StringExecFns;
use crate::bits::{extract, extract_of, insert, insert_of, lemma_insert_keeps_others};
use crate::field::{Access, Band};
use crate::variant::{Family, Variant};

verus! {

/// A GPIO port.
#[derive(Clone, Copy, Debug, PartialEq, Eq, Structural)]
pub enum Port {
    A,
    B,
    C,
    D,
    E,
    F,
    G,
    H,
    I,
    J,
    K,
}

/// The number of GPIO ports that the schema knows.
pub const PORT_COUNT: usize = 11;

/// Where a register of the schema lives.
#[derive(Clone, Copy, Debug, PartialEq, Eq, Structural)]
pub enum Block {
    /// In the reset and clock control, which all ports use.
    Rcc,
    /// In the port itself.
    Gpio,
}

/// Who may hold a token for a register.
#[derive(Clone, Copy, Debug, PartialEq, Eq, Structural)]
pub enum Ownership {
    /// One owner only.
    Exclusive,
    /// Several owners, each of which touches its own bits only.
    Shared,
}

/// A register of the schema, under the name that is the same for every port
/// and variant.
#[derive(Clone, Copy, Debug, PartialEq, Eq, Structural)]
pub enum Reg {
    /// The clock enable register of the bus that the ports are on.
    Busenr,
    /// The reset register of the bus.
    Busrstr,
    /// The register that enables the bus clock in sleep mode.
    Bussmenr,
    Afrl,
    Afrh,
    Ascr,
    Brr,
    Bsrr,
    Crl,
    Crh,
    Idr,
    Lckr,
    Moder,
    Odr,
    Ospeedr,
    Otyper,
    Pupdr,
}

/// The number of registers of the schema.
pub const REG_COUNT: usize = 17;

/// The stem of a field's name; a pin number may follow it.
#[derive(Clone, Copy, Debug, PartialEq, Eq, Structural)]
pub enum Stem {
    Gpioen,
    Gpiorst,
    Gpiosmen,
    Afrl,
    Afrh,
    Asc,
    Br,
    Bs,
    Cnf,
    Mode,
    Idr,
    Lck,
    Lckk,
    Moder,
    Odr,
    Ospeedr,
    Ot,
    Pupdr,
}

impl Port {
    /// The port's place among the ports: 0 for port A.
    pub open spec fn ordinal(self) -> int {
        match self {
            Port::A => 0,
            Port::B => 1,
            Port::C => 2,
            Port::D => 3,
            Port::E => 4,
            Port::F => 5,
            Port::G => 6,
            Port::H => 7,
            Port::I => 8,
            Port::J => 9,
            Port::K => 10,
        }
    }

    /// The port's place among the ports: 0 for port A.
    pub fn index(self) -> (r: u32)
        ensures
            r == self.ordinal(),
            r < PORT_COUNT,
    {
        match self {
            Port::A => 0,
            Port::B => 1,
            Port::C => 2,
            Port::D => 3,
            Port::E => 4,
            Port::F => 5,
            Port::G => 6,
            Port::H => 7,
            Port::I => 8,
            Port::J => 9,
            Port::K => 10,
        }
    }

    /// The port at place `i`.
    pub fn from_index(i: u32) -> (r: Option<Port>)
        ensures
            match r {
                Some(p) => p.ordinal() == i,
                None => i >= PORT_COUNT,
            },
    {
        match i {
            0 => Some(Port::A),
            1 => Some(Port::B),
            2 => Some(Port::C),
            3 => Some(Port::D),
            4 => Some(Port::E),
            5 => Some(Port::F),
            6 => Some(Port::G),
            7 => Some(Port::H),
            8 => Some(Port::I),
            9 => Some(Port::J),
            10 => Some(Port::K),
            _ => None,
        }
    }

    /// Whether `variant` has the port.
    pub open spec fn exists_on(self, variant: Variant) -> bool {
        match self {
            Port::A | Port::B | Port::C => true,
            Port::D => variant != Variant::Stm32f410,
            Port::E => variant != Variant::Stm32f410 && variant != Variant::Stm32f102,
            Port::F | Port::G => match variant {
                Variant::Stm32f100 | Variant::Stm32f101 | Variant::Stm32f103 => true,
                Variant::Stm32f405
                | Variant::Stm32f407
                | Variant::Stm32f412
                | Variant::Stm32f413
                | Variant::Stm32f427
                | Variant::Stm32f429
                | Variant::Stm32f446
                | Variant::Stm32f469 => true,
                Variant::Stm32l4x5 | Variant::Stm32l4x6 => true,
                _ => variant.family_of() == Family::L4Plus,
            },
            Port::H => variant.family_of() != Family::F1,
            Port::I => match variant {
                Variant::Stm32f405
                | Variant::Stm32f407
                | Variant::Stm32f427
                | Variant::Stm32f429
                | Variant::Stm32f469 => true,
                Variant::Stm32l4x6 => true,
                _ => variant.family_of() == Family::L4Plus,
            },
            Port::J | Port::K => match variant {
                Variant::Stm32f405
                | Variant::Stm32f407
                | Variant::Stm32f427
                | Variant::Stm32f429
                | Variant::Stm32f469 => true,
                _ => false,
            },
        }
    }

    /// Whether `variant` has the port.
    pub fn is_on(self, variant: Variant) -> (r: bool)
        ensures
            r == self.exists_on(variant),
    {
        match self {
            Port::A | Port::B | Port::C => true,
            Port::D => !matches!(variant, Variant::Stm32f410),
            Port::E => !matches!(variant, Variant::Stm32f410 | Variant::Stm32f102),
            Port::F | Port::G => match variant {
                Variant::Stm32f100 | Variant::Stm32f101 | Variant::Stm32f103 => true,
                Variant::Stm32f405
                | Variant::Stm32f407
                | Variant::Stm32f412
                | Variant::Stm32f413
                | Variant::Stm32f427
                | Variant::Stm32f429
                | Variant::Stm32f446
                | Variant::Stm32f469 => true,
                Variant::Stm32l4x5 | Variant::Stm32l4x6 => true,
                _ => matches!(variant.family(), Family::L4Plus),
            },
            Port::H => !matches!(variant.family(), Family::F1),
            Port::I => match variant {
                Variant::Stm32f405
                | Variant::Stm32f407
                | Variant::Stm32f427
                | Variant::Stm32f429
                | Variant::Stm32f469 => true,
                Variant::Stm32l4x6 => true,
                _ => matches!(variant.family(), Family::L4Plus),
            },
            Port::J | Port::K => match variant {
                Variant::Stm32f405
                | Variant::Stm32f407
                | Variant::Stm32f427
                | Variant::Stm32f429
                | Variant::Stm32f469 => true,
                _ => false,
            },
        }
    }

    /// The bit of the port in the shared registers of `family`.
    pub open spec fn shared_bit_of(self, family: Family) -> nat {
        if family == Family::F1 {
            (self.ordinal() + 2) as nat
        } else {
            self.ordinal() as nat
        }
    }

    /// The bit of the port in the shared registers of `family`.
    pub fn shared_bit(self, family: Family) -> (r: u32)
        ensures
            r == self.shared_bit_of(family),
            r < 13,
    {
        match family {
            Family::F1 => self.index() + 2,
            _ => self.index(),
        }
    }
}

impl Reg {
    /// The register's place in the schema.
    pub open spec fn ordinal(self) -> int {
        match self {
            Reg::Busenr => 0,
            Reg::Busrstr => 1,
            Reg::Bussmenr => 2,
            Reg::Afrl => 3,
            Reg::Afrh => 4,
            Reg::Ascr => 5,
            Reg::Brr => 6,
            Reg::Bsrr => 7,
            Reg::Crl => 8,
            Reg::Crh => 9,
            Reg::Idr => 10,
            Reg::Lckr => 11,
            Reg::Moder => 12,
            Reg::Odr => 13,
            Reg::Ospeedr => 14,
            Reg::Otyper => 15,
            Reg::Pupdr => 16,
        }
    }

    /// The register at place `i` of the schema.
    pub fn from_index(i: usize) -> (r: Option<Reg>)
        ensures
            match r {
                Some(reg) => reg.ordinal() == i,
                None => i >= REG_COUNT,
            },
    {
        match i {
            0 => Some(Reg::Busenr),
            1 => Some(Reg::Busrstr),
            2 => Some(Reg::Bussmenr),
            3 => Some(Reg::Afrl),
            4 => Some(Reg::Afrh),
            5 => Some(Reg::Ascr),
            6 => Some(Reg::Brr),
            7 => Some(Reg::Bsrr),
            8 => Some(Reg::Crl),
            9 => Some(Reg::Crh),
            10 => Some(Reg::Idr),
            11 => Some(Reg::Lckr),
            12 => Some(Reg::Moder),
            13 => Some(Reg::Odr),
            14 => Some(Reg::Ospeedr),
            15 => Some(Reg::Otyper),
            16 => Some(Reg::Pupdr),
            _ => None,
        }
    }

    /// Where the register lives.
    pub open spec fn block_of(self) -> Block {
        match self {
            Reg::Busenr | Reg::Busrstr | Reg::Bussmenr => Block::Rcc,
            _ => Block::Gpio,
        }
    }

    /// Where the register lives.
    pub fn block(self) -> (r: Block)
        ensures
            r == self.block_of(),
    {
        match self {
            Reg::Busenr | Reg::Busrstr | Reg::Bussmenr => Block::Rcc,
            _ => Block::Gpio,
        }
    }

    /// Who may hold a token for the register: the bus registers are shared
    /// by the ports, every other register has one owner.
    pub open spec fn ownership_of(self) -> Ownership {
        match self {
            Reg::Busenr | Reg::Busrstr | Reg::Bussmenr => Ownership::Shared,
            _ => Ownership::Exclusive,
        }
    }

    /// Who may hold a token for the register.
    pub fn ownership(self) -> (r: Ownership)
        ensures
            r == self.ownership_of(),
    {
        match self {
            Reg::Busenr | Reg::Busrstr | Reg::Bussmenr => Ownership::Shared,
            _ => Ownership::Exclusive,
        }
    }

    /// Whether a variant that has the register in the schema may lack it in
    /// its description.
    pub open spec fn optional_of(self) -> bool {
        self == Reg::Ascr
    }

    /// Whether a variant that has the register in the schema may lack it in
    /// its description.
    pub fn optional(self) -> (r: bool)
        ensures
            r == self.optional_of(),
    {
        matches!(self, Reg::Ascr)
    }

    /// The register's access mode.
    pub open spec fn access_of(self) -> Access {
        match self {
            Reg::Brr | Reg::Bsrr => Access::WriteOnly,
            Reg::Idr => Access::ReadOnly,
            _ => Access::ReadWrite,
        }
    }

    /// The register's access mode.
    pub fn access(self) -> (r: Access)
        ensures
            r == self.access_of(),
    {
        match self {
            Reg::Brr | Reg::Bsrr => Access::WriteOnly,
            Reg::Idr => Access::ReadOnly,
            _ => Access::ReadWrite,
        }
    }

    /// Whether `variant` has the register.
    pub open spec fn exists_on(self, variant: Variant) -> bool {
        match self {
            Reg::Busenr | Reg::Busrstr | Reg::Bsrr | Reg::Idr | Reg::Lckr | Reg::Odr => true,
            Reg::Bussmenr
            | Reg::Afrl
            | Reg::Afrh
            | Reg::Moder
            | Reg::Ospeedr
            | Reg::Otyper
            | Reg::Pupdr => variant.family_of() != Family::F1,
            Reg::Crl | Reg::Crh => variant.family_of() == Family::F1,
            Reg::Ascr => variant == Variant::Stm32l4x5 || variant == Variant::Stm32l4x6,
            Reg::Brr => variant.family_of() == Family::F1 || variant == Variant::Stm32l4x6
                || variant.family_of() == Family::L4Plus,
        }
    }

    /// Whether `variant` has the register.
    pub fn is_on(self, variant: Variant) -> (r: bool)
        ensures
            r == self.exists_on(variant),
    {
        let family = variant.family();
        match self {
            Reg::Busenr | Reg::Busrstr | Reg::Bsrr | Reg::Idr | Reg::Lckr | Reg::Odr => true,
            Reg::Bussmenr
            | Reg::Afrl
            | Reg::Afrh
            | Reg::Moder
            | Reg::Ospeedr
            | Reg::Otyper
            | Reg::Pupdr => !matches!(family, Family::F1),
            Reg::Crl | Reg::Crh => matches!(family, Family::F1),
            Reg::Ascr => matches!(variant, Variant::Stm32l4x5 | Variant::Stm32l4x6),
            Reg::Brr => matches!(family, Family::F1 | Family::L4Plus) || matches!(
                variant,
                Variant::Stm32l4x6
            ),
        }
    }

    /// Whether the port `port` of `variant` exposes the register. Port I has
    /// no ASCR register.
    pub open spec fn exposed_by(self, variant: Variant, port: Port) -> bool {
        self.exists_on(variant) && (self == Reg::Ascr ==> port.ordinal() < 8)
    }

    /// Whether the port `port` of `variant` exposes the register.
    pub fn is_exposed(self, variant: Variant, port: Port) -> (r: bool)
        ensures
            r == self.exposed_by(variant, port),
    {
        self.is_on(variant) && (!matches!(self, Reg::Ascr) || port.index() < 8)
    }

    /// The number of fields of the register that one port owns.
    pub open spec fn field_count_of(self) -> nat {
        match self {
            Reg::Busenr | Reg::Busrstr | Reg::Bussmenr => 1,
            Reg::Afrl | Reg::Afrh => 8,
            Reg::Bsrr => 32,
            Reg::Lckr => 17,
            _ => 16,
        }
    }

    /// The number of fields of the register that one port owns.
    pub fn field_count(self) -> (r: u32)
        ensures
            r == self.field_count_of(),
            1 <= r <= 32,
    {
        match self {
            Reg::Busenr | Reg::Busrstr | Reg::Bussmenr => 1,
            Reg::Afrl | Reg::Afrh => 8,
            Reg::Bsrr => 32,
            Reg::Lckr => 17,
            _ => 16,
        }
    }
}

/// The place of a field in its register: the stem of its name, the pin
/// number that follows the stem, where there is one, the position of its
/// lowest bit, the number of its bits, its access mode and its band.
#[derive(Clone, Copy, Debug, PartialEq, Eq, Structural)]
pub struct Slot {
    pub stem: Stem,
    pub pin: Option<u32>,
    pub bit_offset: u32,
    pub bit_width: u32,
    pub access: Access,
    pub band: Band,
}

impl Slot {
    /// One past the field's highest bit.
    pub open spec fn end(self) -> int {
        self.bit_offset + self.bit_width
    }

    /// Whether the two fields share a bit.
    pub open spec fn overlaps(self, other: Slot) -> bool {
        self.bit_offset < other.end() && other.bit_offset < self.end()
    }

    /// The field has a bit and lies within the 32 bits of a register.
    pub open spec fn valid(self) -> bool {
        1 <= self.bit_width && self.end() <= 32
    }

    /// The value of the field in `word`.
    pub open spec fn read_of(self, word: u32) -> u32 {
        extract_of(self.bit_offset, self.bit_width, word)
    }

    /// `word` with the low bits of `value` written into the field.
    pub open spec fn write_of(self, word: u32, value: u32) -> u32 {
        insert_of(self.bit_offset, self.bit_width, word, value)
    }
}

/// The `k`-th field of `reg` in the schema, for the port whose bit in the
/// shared registers is `shared_bit`.
pub open spec fn slot_of(reg: Reg, k: int, shared_bit: nat) -> Slot {
    let n = k as u32;
    match reg {
        Reg::Busenr => Slot {
            stem: Stem::Gpioen,
            pin: None,
            bit_offset: shared_bit as u32,
            bit_width: 1,
            access: Access::ReadWrite,
            band: Band::BitBand,
        },
        Reg::Busrstr => Slot {
            stem: Stem::Gpiorst,
            pin: None,
            bit_offset: shared_bit as u32,
            bit_width: 1,
            access: Access::ReadWrite,
            band: Band::BitBand,
        },
        Reg::Bussmenr => Slot {
            stem: Stem::Gpiosmen,
            pin: None,
            bit_offset: shared_bit as u32,
            bit_width: 1,
            access: Access::ReadWrite,
            band: Band::BitBand,
        },
        Reg::Afrl => Slot {
            stem: Stem::Afrl,
            pin: Some(n),
            bit_offset: (4 * k) as u32,
            bit_width: 4,
            access: Access::ReadWrite,
            band: Band::Bits,
        },
        Reg::Afrh => Slot {
            stem: Stem::Afrh,
            pin: Some((k + 8) as u32),
            bit_offset: (4 * k) as u32,
            bit_width: 4,
            access: Access::ReadWrite,
            band: Band::Bits,
        },
        Reg::Ascr => Slot {
            stem: Stem::Asc,
            pin: Some(n),
            bit_offset: n,
            bit_width: 1,
            access: Access::ReadWrite,
            band: Band::Bit,
        },
        Reg::Brr => Slot {
            stem: Stem::Br,
            pin: Some(n),
            bit_offset: n,
            bit_width: 1,
            access: Access::WriteOnly,
            band: Band::Bit,
        },
        Reg::Bsrr => if k < 16 {
            Slot {
                stem: Stem::Br,
                pin: Some(n),
                bit_offset: (k + 16) as u32,
                bit_width: 1,
                access: Access::WriteOnly,
                band: Band::Bit,
            }
        } else {
            Slot {
                stem: Stem::Bs,
                pin: Some((k - 16) as u32),
                bit_offset: (k - 16) as u32,
                bit_width: 1,
                access: Access::WriteOnly,
                band: Band::Bit,
            }
        },
        Reg::Crl => if k < 8 {
            Slot {
                stem: Stem::Cnf,
                pin: Some(n),
                bit_offset: (4 * k + 2) as u32,
                bit_width: 2,
                access: Access::ReadWrite,
                band: Band::Bits,
            }
        } else {
            Slot {
                stem: Stem::Mode,
                pin: Some((k - 8) as u32),
                bit_offset: (4 * (k - 8)) as u32,
                bit_width: 2,
                access: Access::ReadWrite,
                band: Band::Bits,
            }
        },
        Reg::Crh => if k < 8 {
            Slot {
                stem: Stem::Cnf,
                pin: Some((k + 8) as u32),
                bit_offset: (4 * k + 2) as u32,
                bit_width: 2,
                access: Access::ReadWrite,
                band: Band::Bits,
            }
        } else {
            Slot {
                stem: Stem::Mode,
                pin: Some(n),
                bit_offset: (4 * (k - 8)) as u32,
                bit_width: 2,
                access: Access::ReadWrite,
                band: Band::Bits,
            }
        },
        Reg::Idr => Slot {
            stem: Stem::Idr,
            pin: Some(n),
            bit_offset: n,
            bit_width: 1,
            access: Access::ReadOnly,
            band: Band::Bit,
        },
        Reg::Lckr => if k < 16 {
            Slot {
                stem: Stem::Lck,
                pin: Some(n),
                bit_offset: n,
                bit_width: 1,
                access: Access::ReadWrite,
                band: Band::Bit,
            }
        } else {
            Slot {
                stem: Stem::Lckk,
                pin: None,
                bit_offset: 16,
                bit_width: 1,
                access: Access::ReadWrite,
                band: Band::Bit,
            }
        },
        Reg::Moder => Slot {
            stem: Stem::Moder,
            pin: Some(n),
            bit_offset: (2 * k) as u32,
            bit_width: 2,
            access: Access::ReadWrite,
            band: Band::Bits,
        },
        Reg::Odr => Slot {
            stem: Stem::Odr,
            pin: Some(n),
            bit_offset: n,
            bit_width: 1,
            access: Access::ReadWrite,
            band: Band::Bit,
        },
        Reg::Ospeedr => Slot {
            stem: Stem::Ospeedr,
            pin: Some(n),
            bit_offset: (2 * k) as u32,
            bit_width: 2,
            access: Access::ReadWrite,
            band: Band::Bits,
        },
        Reg::Otyper => Slot {
            stem: Stem::Ot,
            pin: Some(n),
            bit_offset: n,
            bit_width: 1,
            access: Access::ReadWrite,
            band: Band::Bit,
        },
        Reg::Pupdr => Slot {
            stem: Stem::Pupdr,
            pin: Some(n),
            bit_offset: (2 * k) as u32,
            bit_width: 2,
            access: Access::ReadWrite,
            band: Band::Bits,
        },
    }
}

/// The `k`-th field of `reg` in the schema, for the port whose bit in the
/// shared registers is `shared_bit`.
pub fn slot(reg: Reg, k: u32, shared_bit: u32) -> (s: Slot)
    requires
        k < reg.field_count_of(),
        shared_bit < 32,
    ensures
        s == slot_of(reg, k as int, shared_bit as nat),
{
    let rw = Access::ReadWrite;
    match reg {
        Reg::Busenr => Slot {
            stem: Stem::Gpioen,
            pin: None,
            bit_offset: shared_bit,
            bit_width: 1,
            access: rw,
            band: Band::BitBand,
        },
        Reg::Busrstr => Slot {
            stem: Stem::Gpiorst,
            pin: None,
            bit_offset: shared_bit,
            bit_width: 1,
            access: rw,
            band: Band::BitBand,
        },
        Reg::Bussmenr => Slot {
            stem: Stem::Gpiosmen,
            pin: None,
            bit_offset: shared_bit,
            bit_width: 1,
            access: rw,
            band: Band::BitBand,
        },
        Reg::Afrl => Slot {
            stem: Stem::Afrl,
            pin: Some(k),
            bit_offset: 4 * k,
            bit_width: 4,
            access: rw,
            band: Band::Bits,
        },
        Reg::Afrh => Slot {
            stem: Stem::Afrh,
            pin: Some(k + 8),
            bit_offset: 4 * k,
            bit_width: 4,
            access: rw,
            band: Band::Bits,
        },
        Reg::Ascr => Slot {
            stem: Stem::Asc,
            pin: Some(k),
            bit_offset: k,
            bit_width: 1,
            access: rw,
            band: Band::Bit,
        },
        Reg::Brr => Slot {
            stem: Stem::Br,
            pin: Some(k),
            bit_offset: k,
            bit_width: 1,
            access: Access::WriteOnly,
            band: Band::Bit,
        },
        Reg::Bsrr => if k < 16 {
            Slot {
                stem: Stem::Br,
                pin: Some(k),
                bit_offset: k + 16,
                bit_width: 1,
                access: Access::WriteOnly,
                band: Band::Bit,
            }
        } else {
            Slot {
                stem: Stem::Bs,
                pin: Some(k - 16),
                bit_offset: k - 16,
                bit_width: 1,
                access: Access::WriteOnly,
                band: Band::Bit,
            }
        },
        Reg::Crl => if k < 8 {
            Slot {
                stem: Stem::Cnf,
                pin: Some(k),
                bit_offset: 4 * k + 2,
                bit_width: 2,
                access: rw,
                band: Band::Bits,
            }
        } else {
            Slot {
                stem: Stem::Mode,
                pin: Some(k - 8),
                bit_offset: 4 * (k - 8),
                bit_width: 2,
                access: rw,
                band: Band::Bits,
            }
        },
        Reg::Crh => if k < 8 {
            Slot {
                stem: Stem::Cnf,
                pin: Some(k + 8),
                bit_offset: 4 * k + 2,
                bit_width: 2,
                access: rw,
                band: Band::Bits,
            }
        } else {
            Slot {
                stem: Stem::Mode,
                pin: Some(k),
                bit_offset: 4 * (k - 8),
                bit_width: 2,
                access: rw,
                band: Band::Bits,
            }
        },
        Reg::Idr => Slot {
            stem: Stem::Idr,
            pin: Some(k),
            bit_offset: k,
            bit_width: 1,
            access: Access::ReadOnly,
            band: Band::Bit,
        },
        Reg::Lckr => if k < 16 {
            Slot {
                stem: Stem::Lck,
                pin: Some(k),
                bit_offset: k,
                bit_width: 1,
                access: rw,
                band: Band::Bit,
            }
        } else {
            Slot { stem: Stem::Lckk, pin: None, bit_offset: 16, bit_width: 1, access: rw, band: Band::Bit }
        },
        Reg::Moder => Slot {
            stem: Stem::Moder,
            pin: Some(k),
            bit_offset: 2 * k,
            bit_width: 2,
            access: rw,
            band: Band::Bits,
        },
        Reg::Odr => Slot {
            stem: Stem::Odr,
            pin: Some(k),
            bit_offset: k,
            bit_width: 1,
            access: rw,
            band: Band::Bit,
        },
        Reg::Ospeedr => Slot {
            stem: Stem::Ospeedr,
            pin: Some(k),
            bit_offset: 2 * k,
            bit_width: 2,
            access: rw,
            band: Band::Bits,
        },
        Reg::Otyper => Slot {
            stem: Stem::Ot,
            pin: Some(k),
            bit_offset: k,
            bit_width: 1,
            access: rw,
            band: Band::Bit,
        },
        Reg::Pupdr => Slot {
            stem: Stem::Pupdr,
            pin: Some(k),
            bit_offset: 2 * k,
            bit_width: 2,
            access: rw,
            band: Band::Bits,
        },
    }
}

/// The fields that one port owns in a register of the schema are pairwise
/// disjoint, differ in their names, and lie within the 32 bits of the
/// register.
pub proof fn lemma_slots_apart(reg: Reg, shared_bit: nat, a: int, b: int)
    requires
        0 <= a < reg.field_count_of(),
        0 <= b < reg.field_count_of(),
        a != b,
        shared_bit < 32,
    ensures
        !slot_of(reg, a, shared_bit).overlaps(slot_of(reg, b, shared_bit)),
        slot_of(reg, a, shared_bit).stem != slot_of(reg, b, shared_bit).stem || slot_of(
            reg,
            a,
            shared_bit,
        ).pin != slot_of(reg, b, shared_bit).pin,
        1 <= slot_of(reg, a, shared_bit).bit_width,
        slot_of(reg, a, shared_bit).end() <= 32,
{
}

/// Two ports of one family have different bits in the shared registers: no
/// bit of a shared register belongs to two owners.
pub proof fn lemma_shared_bits_differ(family: Family, a: Port, b: Port)
    requires
        a != b,
    ensures
        a.shared_bit_of(family) != b.shared_bit_of(family),
        forall|reg: Reg|
            reg.ownership_of() == Ownership::Shared ==> !(#[trigger] slot_of(
                reg,
                0,
                a.shared_bit_of(family),
            )).overlaps(slot_of(reg, 0, b.shared_bit_of(family))),
{
}

/// The layout of a register that has one owner is the same for every port.
pub proof fn lemma_exclusive_layout(reg: Reg, k: int, family: Family, a: Port, b: Port)
    requires
        reg.ownership_of() == Ownership::Exclusive,
    ensures
        slot_of(reg, k, a.shared_bit_of(family)) == slot_of(reg, k, b.shared_bit_of(family)),
{
}

impl Port {
    /// The port's letter, as text.
    pub open spec fn letter_text(self) -> Seq<char> {
        match self {
            Port::A => "A"@,
            Port::B => "B"@,
            Port::C => "C"@,
            Port::D => "D"@,
            Port::E => "E"@,
            Port::F => "F"@,
            Port::G => "G"@,
            Port::H => "H"@,
            Port::I => "I"@,
            Port::J => "J"@,
            Port::K => "K"@,
        }
    }

    /// The port's letter, as text.
    pub fn letter(self) -> (r: &'static str)
        ensures
            r@ == self.letter_text(),
    {
        match self {
            Port::A => "A",
            Port::B => "B",
            Port::C => "C",
            Port::D => "D",
            Port::E => "E",
            Port::F => "F",
            Port::G => "G",
            Port::H => "H",
            Port::I => "I",
            Port::J => "J",
            Port::K => "K",
        }
    }

    /// The name of the port's peripheral.
    pub open spec fn peripheral_text(self) -> Seq<char> {
        match self {
            Port::A => "GPIOA"@,
            Port::B => "GPIOB"@,
            Port::C => "GPIOC"@,
            Port::D => "GPIOD"@,
            Port::E => "GPIOE"@,
            Port::F => "GPIOF"@,
            Port::G => "GPIOG"@,
            Port::H => "GPIOH"@,
            Port::I => "GPIOI"@,
            Port::J => "GPIOJ"@,
            Port::K => "GPIOK"@,
        }
    }

    /// The name of the port's peripheral.
    pub fn peripheral(self) -> (r: &'static str)
        ensures
            r@ == self.peripheral_text(),
    {
        match self {
            Port::A => "GPIOA",
            Port::B => "GPIOB",
            Port::C => "GPIOC",
            Port::D => "GPIOD",
            Port::E => "GPIOE",
            Port::F => "GPIOF",
            Port::G => "GPIOG",
            Port::H => "GPIOH",
            Port::I => "GPIOI",
            Port::J => "GPIOJ",
            Port::K => "GPIOK",
        }
    }
}

impl Stem {
    /// The stem, as text.
    pub open spec fn text_of(self) -> Seq<char> {
        match self {
            Stem::Gpioen => "GPIOEN"@,
            Stem::Gpiorst => "GPIORST"@,
            Stem::Gpiosmen => "GPIOSMEN"@,
            Stem::Afrl => "AFRL"@,
            Stem::Afrh => "AFRH"@,
            Stem::Asc => "ASC"@,
            Stem::Br => "BR"@,
            Stem::Bs => "BS"@,
            Stem::Cnf => "CNF"@,
            Stem::Mode => "MODE"@,
            Stem::Idr => "IDR"@,
            Stem::Lck => "LCK"@,
            Stem::Lckk => "LCKK"@,
            Stem::Moder => "MODER"@,
            Stem::Odr => "ODR"@,
            Stem::Ospeedr => "OSPEEDR"@,
            Stem::Ot => "OT"@,
            Stem::Pupdr => "PUPDR"@,
        }
    }

    /// The stem, as text.
    pub fn text(self) -> (r: &'static str)
        ensures
            r@ == self.text_of(),
    {
        match self {
            Stem::Gpioen => "GPIOEN",
            Stem::Gpiorst => "GPIORST",
            Stem::Gpiosmen => "GPIOSMEN",
            Stem::Afrl => "AFRL",
            Stem::Afrh => "AFRH",
            Stem::Asc => "ASC",
            Stem::Br => "BR",
            Stem::Bs => "BS",
            Stem::Cnf => "CNF",
            Stem::Mode => "MODE",
            Stem::Idr => "IDR",
            Stem::Lck => "LCK",
            Stem::Lckk => "LCKK",
            Stem::Moder => "MODER",
            Stem::Odr => "ODR",
            Stem::Ospeedr => "OSPEEDR",
            Stem::Ot => "OT",
            Stem::Pupdr => "PUPDR",
        }
    }
}

/// The decimal digits of a pin number.
pub open spec fn pin_text(pin: u32) -> Seq<char> {
    match pin {
        0 => "0"@,
        1 => "1"@,
        2 => "2"@,
        3 => "3"@,
        4 => "4"@,
        5 => "5"@,
        6 => "6"@,
        7 => "7"@,
        8 => "8"@,
        9 => "9"@,
        10 => "10"@,
        11 => "11"@,
        12 => "12"@,
        13 => "13"@,
        14 => "14"@,
        15 => "15"@,
        _ => Seq::empty(),
    }
}

/// The decimal digits of a pin number.
pub fn pin_digits(pin: u32) -> (r: &'static str)
    requires
        pin < 16,
    ensures
        r@ == pin_text(pin),
{
    match pin {
        0 => "0",
        1 => "1",
        2 => "2",
        3 => "3",
        4 => "4",
        5 => "5",
        6 => "6",
        7 => "7",
        8 => "8",
        9 => "9",
        10 => "10",
        11 => "11",
        12 => "12",
        13 => "13",
        14 => "14",
        _ => "15",
    }
}

impl Reg {
    /// The register's name in the schema.
    pub open spec fn text_of(self) -> Seq<char> {
        match self {
            Reg::Busenr => "BUSENR"@,
            Reg::Busrstr => "BUSRSTR"@,
            Reg::Bussmenr => "BUSSMENR"@,
            Reg::Afrl => "AFRL"@,
            Reg::Afrh => "AFRH"@,
            Reg::Ascr => "ASCR"@,
            Reg::Brr => "BRR"@,
            Reg::Bsrr => "BSRR"@,
            Reg::Crl => "CRL"@,
            Reg::Crh => "CRH"@,
            Reg::Idr => "IDR"@,
            Reg::Lckr => "LCKR"@,
            Reg::Moder => "MODER"@,
            Reg::Odr => "ODR"@,
            Reg::Ospeedr => "OSPEEDR"@,
            Reg::Otyper => "OTYPER"@,
            Reg::Pupdr => "PUPDR"@,
        }
    }

    /// The register's name in the schema.
    pub fn text(self) -> (r: &'static str)
        ensures
            r@ == self.text_of(),
    {
        match self {
            Reg::Busenr => "BUSENR",
            Reg::Busrstr => "BUSRSTR",
            Reg::Bussmenr => "BUSSMENR",
            Reg::Afrl => "AFRL",
            Reg::Afrh => "AFRH",
            Reg::Ascr => "ASCR",
            Reg::Brr => "BRR",
            Reg::Bsrr => "BSRR",
            Reg::Crl => "CRL",
            Reg::Crh => "CRH",
            Reg::Idr => "IDR",
            Reg::Lckr => "LCKR",
            Reg::Moder => "MODER",
            Reg::Odr => "ODR",
            Reg::Ospeedr => "OSPEEDR",
            Reg::Otyper => "OTYPER",
            Reg::Pupdr => "PUPDR",
        }
    }

    /// The register's name in the description of a variant of `family`.
    pub open spec fn target_text(self, family: Family) -> Seq<char> {
        match self {
            Reg::Busenr => match family {
                Family::F1 => "APB2ENR"@,
                Family::F4 => "AHB1ENR"@,
                _ => "AHB2ENR"@,
            },
            Reg::Busrstr => match family {
                Family::F1 => "APB2RSTR"@,
                Family::F4 => "AHB1RSTR"@,
                _ => "AHB2RSTR"@,
            },
            Reg::Bussmenr => match family {
                Family::F1 => "APB2SMENR"@,
                Family::F4 => "AHB1LPENR"@,
                _ => "AHB2SMENR"@,
            },
            _ => self.text_of(),
        }
    }

    /// The register's name in the description of a variant of `family`.
    pub fn target(self, family: Family) -> (r: &'static str)
        ensures
            r@ == self.target_text(family),
    {
        match self {
            Reg::Busenr => match family {
                Family::F1 => "APB2ENR",
                Family::F4 => "AHB1ENR",
                _ => "AHB2ENR",
            },
            Reg::Busrstr => match family {
                Family::F1 => "APB2RSTR",
                Family::F4 => "AHB1RSTR",
                _ => "AHB2RSTR",
            },
            Reg::Bussmenr => match family {
                Family::F1 => "APB2SMENR",
                Family::F4 => "AHB1LPENR",
                _ => "AHB2SMENR",
            },
            _ => self.text(),
        }
    }

    /// The name of the peripheral that holds the register for `port`.
    pub open spec fn peripheral_text(self, port: Port) -> Seq<char> {
        match self.block_of() {
            Block::Rcc => "RCC"@,
            Block::Gpio => port.peripheral_text(),
        }
    }

    /// The name of the peripheral that holds the register for `port`.
    pub fn peripheral(self, port: Port) -> (r: &'static str)
        ensures
            r@ == self.peripheral_text(port),
    {
        match self.block() {
            Block::Rcc => "RCC",
            Block::Gpio => port.peripheral(),
        }
    }
}

/// The name of the field at `slot` in the description of a variant of
/// `family`: the field of a shared register is named after its port, every
/// other by its stem and pin.
pub open spec fn field_text(slot: Slot, family: Family, port: Port) -> Seq<char> {
    let prefix = if family == Family::F1 {
        "IOP"@
    } else {
        "GPIO"@
    };
    match slot.stem {
        Stem::Gpioen => prefix + port.letter_text() + "EN"@,
        Stem::Gpiorst => prefix + port.letter_text() + "RST"@,
        Stem::Gpiosmen => prefix + port.letter_text() + (if family == Family::F4 {
            "LPEN"@
        } else {
            "SMEN"@
        }),
        _ => match slot.pin {
            Some(pin) => slot.stem.text_of() + pin_text(pin),
            None => slot.stem.text_of(),
        },
    }
}

/// The name of the field at `slot` in the description of a variant of
/// `family`.
pub fn field_name(slot: Slot, family: Family, port: Port) -> (r: String)
    requires
        slot.pin matches Some(pin) ==> pin < 16,
    ensures
        r@ == field_text(slot, family, port),
{
    let prefix = match family {
        Family::F1 => "IOP",
        _ => "GPIO",
    };
    match slot.stem {
        Stem::Gpioen => {
            let mut name = String::from_str(prefix);
            name.append(port.letter());
            name.append("EN");
            name
        },
        Stem::Gpiorst => {
            let mut name = String::from_str(prefix);
            name.append(port.letter());
            name.append("RST");
            name
        },
        Stem::Gpiosmen => {
            let mut name = String::from_str(prefix);
            name.append(port.letter());
            match family {
                Family::F4 => name.append("LPEN"),
                _ => name.append("SMEN"),
            }
            name
        },
        _ => {
            let mut name = String::from_str(slot.stem.text());
            match slot.pin {
                Some(pin) => name.append(pin_digits(pin)),
                None => {},
            }
            name
        },
    }
}

/// Every pin number of the schema has two digits at most.
pub proof fn lemma_pins_small(reg: Reg, k: int, shared_bit: nat)
    requires
        0 <= k < reg.field_count_of(),
    ensures
        slot_of(reg, k, shared_bit).pin matches Some(pin) ==> pin < 16,
{
}

/// Every field of the schema has a bit and lies within the 32 bits of its
/// register.
pub proof fn lemma_slot_bounds(reg: Reg, k: int, shared_bit: nat)
    requires
        0 <= k < reg.field_count_of(),
        shared_bit < 32,
    ensures
        slot_of(reg, k, shared_bit).valid(),
{
}

/// A token for one field: the right to touch the field's bits.
#[derive(Debug)]
pub struct FieldToken {
    slot: Slot,
    name: String,
}

/// What a field token stands for.
pub struct FieldTokenView {
    pub slot: Slot,
    pub name: Seq<char>,
}

impl View for FieldToken {
    type V = FieldTokenView;

    closed spec fn view(&self) -> FieldTokenView {
        FieldTokenView { slot: self.slot, name: self.name@ }
    }
}

impl FieldToken {
    #[verifier::type_invariant]
    spec fn inv(&self) -> bool {
        self.slot.valid()
    }

    pub fn slot(&self) -> (r: Slot)
        ensures
            r == self@.slot,
            r.valid(),
    {
        proof {
            use_type_invariant(self);
        }
        self.slot
    }

    /// The value of the field in `word`, the register's content.
    pub fn read(&self, word: u32) -> (r: u32)
        ensures
            r == self@.slot.read_of(word),
    {
        proof {
            use_type_invariant(self);
        }
        extract(self.slot.bit_offset, self.slot.bit_width, word)
    }

    /// `word` with the low bits of `value` written into the field. No bit of
    /// another field changes.
    pub fn write(&self, word: u32, value: u32) -> (r: u32)
        ensures
            r == self@.slot.write_of(word, value),
    {
        proof {
            use_type_invariant(self);
        }
        insert(self.slot.bit_offset, self.slot.bit_width, word, value)
    }

    /// `word` with every bit of the field set.
    pub fn set(&self, word: u32) -> (r: u32)
        ensures
            r == self@.slot.write_of(word, 0xffff_ffff),
    {
        self.write(word, 0xffff_ffff)
    }

    /// `word` with every bit of the field cleared.
    pub fn clear(&self, word: u32) -> (r: u32)
        ensures
            r == self@.slot.write_of(word, 0),
    {
        self.write(word, 0)
    }

    /// The field's name in the description.
    pub fn name(&self) -> (r: &str)
        ensures
            r@ == self@.name,
    {
        self.name.as_str()
    }
}

/// A token for one register, with the tokens for the fields that its owner
/// may touch.
#[derive(Debug)]
pub struct RegisterToken {
    reg: Reg,
    peripheral: String,
    name: String,
    fields: Vec<FieldToken>,
}

/// What a register token stands for.
pub struct RegisterTokenView {
    pub reg: Reg,
    pub peripheral: Seq<char>,
    pub name: Seq<char>,
    pub fields: Seq<FieldTokenView>,
}

impl View for RegisterToken {
    type V = RegisterTokenView;

    closed spec fn view(&self) -> RegisterTokenView {
        RegisterTokenView {
            reg: self.reg,
            peripheral: self.peripheral@,
            name: self.name@,
            fields: self.fields@.map_values(|f: FieldToken| f@),
        }
    }
}

impl RegisterToken {
    pub fn reg(&self) -> (r: Reg)
        ensures
            r == self@.reg,
    {
        self.reg
    }

    /// The name of the peripheral that holds the register.
    pub fn peripheral(&self) -> (r: &str)
        ensures
            r@ == self@.peripheral,
    {
        self.peripheral.as_str()
    }

    /// The register's name in the description.
    pub fn name(&self) -> (r: &str)
        ensures
            r@ == self@.name,
    {
        self.name.as_str()
    }

    pub fn field_count(&self) -> (r: usize)
        ensures
            r == self@.fields.len(),
    {
        self.fields.len()
    }

    pub fn field_at(&self, i: usize) -> (r: &FieldToken)
        requires
            i < self@.fields.len(),
        ensures
            r@ == self@.fields[i as int],
    {
        &self.fields[i]
    }
}

/// The token for the register `reg` of the port `port` of `variant`.
pub open spec fn register_token(reg: Reg, variant: Variant, port: Port) -> RegisterTokenView {
    RegisterTokenView {
        reg,
        peripheral: reg.peripheral_text(port),
        name: reg.target_text(variant.family_of()),
        fields: Seq::new(
            reg.field_count_of(),
            |k: int|
                FieldTokenView {
                    slot: slot_of(reg, k, port.shared_bit_of(variant.family_of())),
                    name: field_text(
                        slot_of(reg, k, port.shared_bit_of(variant.family_of())),
                        variant.family_of(),
                        port,
                    ),
                },
        ),
    }
}

/// The tokens for the first `n` registers of the schema that the port
/// exposes.
pub open spec fn tokens_upto(variant: Variant, port: Port, n: int) -> Seq<RegisterTokenView>
    decreases n,
{
    if n <= 0 {
        Seq::empty()
    } else {
        let reg = choose|reg: Reg| reg.ordinal() == n - 1;
        if reg.exposed_by(variant, port) {
            tokens_upto(variant, port, n - 1).push(register_token(reg, variant, port))
        } else {
            tokens_upto(variant, port, n - 1)
        }
    }
}

/// What the schema expands to for the port `port` of `variant`: a token for
/// each register that the port exposes, in the order of the schema.
pub open spec fn expansion(variant: Variant, port: Port) -> Seq<RegisterTokenView> {
    tokens_upto(variant, port, REG_COUNT as int)
}

/// The tokens of one port on one variant. The set cannot be copied: who
/// holds it is the port's only owner.
#[derive(Debug)]
pub struct TokenSet {
    variant: Variant,
    port: Port,
    registers: Vec<RegisterToken>,
}

/// What a token set stands for.
pub struct TokenSetView {
    pub variant: Variant,
    pub port: Port,
    pub registers: Seq<RegisterTokenView>,
}

impl View for TokenSet {
    type V = TokenSetView;

    closed spec fn view(&self) -> TokenSetView {
        TokenSetView {
            variant: self.variant,
            port: self.port,
            registers: self.registers@.map_values(|r: RegisterToken| r@),
        }
    }
}

impl TokenSet {
    pub fn variant(&self) -> (r: Variant)
        ensures
            r == self@.variant,
    {
        self.variant
    }

    pub fn port(&self) -> (r: Port)
        ensures
            r == self@.port,
    {
        self.port
    }

    pub fn register_count(&self) -> (r: usize)
        ensures
            r == self@.registers.len(),
    {
        self.registers.len()
    }

    pub fn register_at(&self, i: usize) -> (r: &RegisterToken)
        requires
            i < self@.registers.len(),
        ensures
            r@ == self@.registers[i as int],
    {
        &self.registers[i]
    }

    /// The token for `reg`, if the set holds one.
    pub fn register(&self, reg: Reg) -> (r: Option<&RegisterToken>)
        ensures
            match r {
                Some(t) => t@.reg == reg && exists|i: int|
                    0 <= i < self@.registers.len() && #[trigger] self@.registers[i] == t@,
                None => forall|i: int|
                    0 <= i < self@.registers.len() ==> (#[trigger] self@.registers[i]).reg != reg,
            },
    {
        let mut i: usize = 0;
        while i < self.registers.len()
            invariant
                i <= self@.registers.len(),
                forall|j: int| 0 <= j < i ==> (#[trigger] self@.registers[j]).reg != reg,
            decreases self@.registers.len() - i,
        {
            if self.registers[i].reg == reg {
                assert(self@.registers[i as int] == self.registers@[i as int]@);
                return Some(&self.registers[i]);
            }
            i += 1;
        }
        None
    }
}

/// The token for the register `reg` of the port `port` of `variant`.
fn make_register_token(reg: Reg, variant: Variant, port: Port) -> (t: RegisterToken)
    ensures
        t@ == register_token(reg, variant, port),
{
    let family = variant.family();
    let shared_bit = port.shared_bit(family);
    let mut fields: Vec<FieldToken> = Vec::new();
    let mut k: u32 = 0;
    while k < reg.field_count()
        invariant
            k <= reg.field_count_of(),
            family == variant.family_of(),
            shared_bit == port.shared_bit_of(family),
            fields@.len() == k,
            forall|j: int|
                0 <= j < k ==> (#[trigger] fields@[j])@ == (FieldTokenView {
                    slot: slot_of(reg, j, shared_bit as nat),
                    name: field_text(slot_of(reg, j, shared_bit as nat), family, port),
                }),
        decreases reg.field_count_of() - k,
    {
        let s = slot(reg, k, shared_bit);
        proof {
            lemma_pins_small(reg, k as int, shared_bit as nat);
            lemma_slot_bounds(reg, k as int, shared_bit as nat);
        }
        fields.push(FieldToken { slot: s, name: field_name(s, family, port) });
        k += 1;
    }
    let t = RegisterToken {
        reg,
        peripheral: String::from_str(reg.peripheral(port)),
        name: String::from_str(reg.target(family)),
        fields,
    };
    assert(t@.fields =~= register_token(reg, variant, port).fields);
    t
}

/// Expands the schema for the port `port` of `variant`, if the variant has
/// the port.
fn expand(variant: Variant, port: Port) -> (r: Option<TokenSet>)
    ensures
        match r {
            Some(set) => port.exists_on(variant) && set@ == (TokenSetView {
                variant,
                port,
                registers: expansion(variant, port),
            }),
            None => !port.exists_on(variant),
        },
{
    if !port.is_on(variant) {
        return None;
    }
    let mut registers: Vec<RegisterToken> = Vec::new();
    let mut i: usize = 0;
    assert(registers@.map_values(|r: RegisterToken| r@) =~= tokens_upto(variant, port, 0));
    while i < REG_COUNT
        invariant
            i <= REG_COUNT,
            registers@.map_values(|r: RegisterToken| r@) == tokens_upto(variant, port, i as int),
        decreases REG_COUNT - i,
    {
        match Reg::from_index(i) {
            Some(reg) => {
                proof {
                    let chosen = choose|chosen: Reg| chosen.ordinal() == i as int;
                    assert(chosen == reg);
                }
                if reg.is_exposed(variant, port) {
                    let ghost before = registers@;
                    registers.push(make_register_token(reg, variant, port));
                    assert(registers@.map_values(|r: RegisterToken| r@)
                        =~= before.map_values(|r: RegisterToken| r@).push(
                        register_token(reg, variant, port),
                    ));
                }
            },
            None => {},
        }
        i += 1;
    }
    Some(TokenSet { variant, port, registers })
}

/// Which ports have an owner. A port's tokens are handed out once.
pub struct Registry {
    variant: Variant,
    claimed: Vec<bool>,
}

impl Registry {
    /// The variant whose ports the registry hands out.
    pub closed spec fn variant_of(&self) -> Variant {
        self.variant
    }

    /// Whether the tokens of `port` have been handed out.
    pub closed spec fn claimed(&self, port: Port) -> bool {
        port.ordinal() < self.claimed@.len() && self.claimed@[port.ordinal()]
    }

    /// A registry for `variant`, in which no port has an owner.
    pub fn new(variant: Variant) -> (r: Registry)
        ensures
            r.variant_of() == variant,
            forall|port: Port| !#[trigger] r.claimed(port),
    {
        Registry { variant, claimed: Vec::new() }
    }

    pub fn variant(&self) -> (r: Variant)
        ensures
            r == self.variant_of(),
    {
        self.variant
    }

    /// Whether the tokens of `port` have been handed out.
    pub fn is_claimed(&self, port: Port) -> (r: bool)
        ensures
            r == self.claimed(port),
    {
        let i = port.index() as usize;
        i < self.claimed.len() && self.claimed[i]
    }

    /// Hands out the tokens of `port`: once, and only if the variant has the
    /// port.
    pub fn claim(&mut self, port: Port) -> (r: Option<TokenSet>)
        ensures
            final(self).variant_of() == old(self).variant_of(),
            forall|other: Port|
                other != port ==> #[trigger] final(self).claimed(other) == old(self).claimed(other),
            match r {
                Some(set) => port.exists_on(old(self).variant_of()) && !old(self).claimed(port)
                    && final(self).claimed(port) && set@ == (TokenSetView {
                    variant: old(self).variant_of(),
                    port,
                    registers: expansion(old(self).variant_of(), port),
                }),
                None => (!port.exists_on(old(self).variant_of()) || old(self).claimed(port))
                    && final(self).claimed(port) == old(self).claimed(port),
            },
    {
        if self.is_claimed(port) {
            return None;
        }
        let set = match expand(self.variant, port) {
            Some(set) => set,
            None => {
                return None;
            },
        };
        let i = port.index() as usize;
        while self.claimed.len() <= i
            invariant
                self.variant == old(self).variant,
                forall|other: Port| #[trigger] self.claimed(other) == old(self).claimed(other),
            decreases i + 1 - self.claimed@.len(),
        {
            let ghost earlier = *self;
            self.claimed.push(false);
            assert forall|other: Port| #[trigger] self.claimed(other) == earlier.claimed(other) by {
                if other.ordinal() < earlier.claimed@.len() {
                    assert(self.claimed@[other.ordinal()] == earlier.claimed@[other.ordinal()]);
                }
            }
        }
        let ghost before = *self;
        self.claimed[i] = true;
        assert forall|other: Port| other != port implies #[trigger] self.claimed(other)
            == before.claimed(other) by {
            assert(other.ordinal() != port.ordinal());
        }
        Some(set)
    }
}

/// Two ports of one variant get the same tokens for a register that has
/// one owner, field by field and bit by bit, under the same names; but the
/// tokens stand for registers of different peripherals, and neither can
/// take the other's place.
pub proof fn lemma_ports_alike(variant: Variant, a: Port, b: Port, reg: Reg)
    requires
        reg.ownership_of() == Ownership::Exclusive,
    ensures
        register_token(reg, variant, a).fields == register_token(reg, variant, b).fields,
        register_token(reg, variant, a).name == register_token(reg, variant, b).name,
        a != b ==> register_token(reg, variant, a).peripheral != register_token(
            reg,
            variant,
            b,
        ).peripheral,
{
    let family = variant.family_of();
    assert forall|k: int| 0 <= k < reg.field_count_of() implies register_token(
        reg,
        variant,
        a,
    ).fields[k] == register_token(reg, variant, b).fields[k] by {
        lemma_exclusive_layout(reg, k, family, a, b);
    }
    assert(register_token(reg, variant, a).fields =~= register_token(reg, variant, b).fields);
    if a != b {
        lemma_peripherals_differ(a, b);
    }
}

/// No two ports have the same peripheral.
pub proof fn lemma_peripherals_differ(a: Port, b: Port)
    requires
        a != b,
    ensures
        a.peripheral_text() != b.peripheral_text(),
{
    reveal_strlit("GPIOA");
    reveal_strlit("GPIOB");
    reveal_strlit("GPIOC");
    reveal_strlit("GPIOD");
    reveal_strlit("GPIOE");
    reveal_strlit("GPIOF");
    reveal_strlit("GPIOG");
    reveal_strlit("GPIOH");
    reveal_strlit("GPIOI");
    reveal_strlit("GPIOJ");
    reveal_strlit("GPIOK");
    let x = a.peripheral_text();
    let y = b.peripheral_text();
    assert(x.len() == 5 && y.len() == 5);
    assert(x[4] != y[4]);
}

/// Two owners of a shared register do not disturb each other: what one port
/// writes into its field leaves the field of every other port as it was.
pub proof fn lemma_shared_owners_independent(
    family: Family,
    a: Port,
    b: Port,
    reg: Reg,
    word: u32,
    value: u32,
)
    requires
        a != b,
        reg.ownership_of() == Ownership::Shared,
    ensures
        slot_of(reg, 0, b.shared_bit_of(family)).read_of(
            slot_of(reg, 0, a.shared_bit_of(family)).write_of(word, value),
        ) == slot_of(reg, 0, b.shared_bit_of(family)).read_of(word),
{
    let sa = slot_of(reg, 0, a.shared_bit_of(family));
    let sb = slot_of(reg, 0, b.shared_bit_of(family));
    lemma_shared_bits_differ(family, a, b);
    lemma_insert_keeps_others(
        sa.bit_offset,
        sa.bit_width,
        sb.bit_offset,
        sb.bit_width,
        word,
        value,
    );
}

/// Two fields of one register token do not disturb each other either.
pub proof fn lemma_fields_independent(reg: Reg, shared_bit: nat, a: int, b: int, word: u32, value: u32)
    requires
        0 <= a < reg.field_count_of(),
        0 <= b < reg.field_count_of(),
        a != b,
        shared_bit < 32,
    ensures
        slot_of(reg, b, shared_bit).read_of(slot_of(reg, a, shared_bit).write_of(word, value))
            == slot_of(reg, b, shared_bit).read_of(word),
{
    let sa = slot_of(reg, a, shared_bit);
    let sb = slot_of(reg, b, shared_bit);
    lemma_slots_apart(reg, shared_bit, a, b);
    lemma_slots_apart(reg, shared_bit, b, a);
    lemma_insert_keeps_others(
        sa.bit_offset,
        sa.bit_width,
        sb.bit_offset,
        sb.bit_width,
        word,
        value,
    );
}

} // verus!
