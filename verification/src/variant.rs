//! The supported microcontrollers. A variant key selects one of them, and
//! with it the description file, the corrections, and the branches of the
//! ownership schema.

use vstd::prelude::*;
use crate::error::Error;
use crate::text::str_eq;

verus! {

/// The families of the supported microcontrollers.
#[derive(Clone, Copy, Debug, PartialEq, Eq, Structural)]
pub enum Family {
    F1,
    F4,
    L4,
    L4Plus,
}

/// A supported microcontroller.
#[derive(Clone, Copy, Debug, PartialEq, Eq, Structural)]
pub enum Variant {
    Stm32f100,
    Stm32f101,
    Stm32f102,
    Stm32f103,
    Stm32f107,
    Stm32f401,
    Stm32f405,
    Stm32f407,
    Stm32f410,
    Stm32f411,
    Stm32f412,
    Stm32f413,
    Stm32f427,
    Stm32f429,
    Stm32f446,
    Stm32f469,
    Stm32l4x1,
    Stm32l4x2,
    Stm32l4x3,
    Stm32l4x5,
    Stm32l4x6,
    Stm32l4r5,
    Stm32l4r7,
    Stm32l4r9,
    Stm32l4s5,
    Stm32l4s7,
    Stm32l4s9,
}

/// The number of supported microcontrollers.
pub const VARIANT_COUNT: usize = 27;

impl Variant {
    /// The key that selects the variant.
    pub open spec fn key_text(self) -> Seq<char> {
        match self {
            Variant::Stm32f100 => "stm32f100"@,
            Variant::Stm32f101 => "stm32f101"@,
            Variant::Stm32f102 => "stm32f102"@,
            Variant::Stm32f103 => "stm32f103"@,
            Variant::Stm32f107 => "stm32f107"@,
            Variant::Stm32f401 => "stm32f401"@,
            Variant::Stm32f405 => "stm32f405"@,
            Variant::Stm32f407 => "stm32f407"@,
            Variant::Stm32f410 => "stm32f410"@,
            Variant::Stm32f411 => "stm32f411"@,
            Variant::Stm32f412 => "stm32f412"@,
            Variant::Stm32f413 => "stm32f413"@,
            Variant::Stm32f427 => "stm32f427"@,
            Variant::Stm32f429 => "stm32f429"@,
            Variant::Stm32f446 => "stm32f446"@,
            Variant::Stm32f469 => "stm32f469"@,
            Variant::Stm32l4x1 => "stm32l4x1"@,
            Variant::Stm32l4x2 => "stm32l4x2"@,
            Variant::Stm32l4x3 => "stm32l4x3"@,
            Variant::Stm32l4x5 => "stm32l4x5"@,
            Variant::Stm32l4x6 => "stm32l4x6"@,
            Variant::Stm32l4r5 => "stm32l4r5"@,
            Variant::Stm32l4r7 => "stm32l4r7"@,
            Variant::Stm32l4r9 => "stm32l4r9"@,
            Variant::Stm32l4s5 => "stm32l4s5"@,
            Variant::Stm32l4s7 => "stm32l4s7"@,
            Variant::Stm32l4s9 => "stm32l4s9"@,
        }
    }

    /// The name of the variant's description file.
    pub open spec fn file_text(self) -> Seq<char> {
        match self {
            Variant::Stm32f100 => "STM32F100.svd"@,
            Variant::Stm32f101 => "STM32F101.svd"@,
            Variant::Stm32f102 => "STM32F102.svd"@,
            Variant::Stm32f103 => "STM32F103.svd"@,
            Variant::Stm32f107 => "STM32F107.svd"@,
            Variant::Stm32f401 => "STM32F401.svd"@,
            Variant::Stm32f405 => "STM32F405.svd"@,
            Variant::Stm32f407 => "STM32F407.svd"@,
            Variant::Stm32f410 => "STM32F410.svd"@,
            Variant::Stm32f411 => "STM32F411.svd"@,
            Variant::Stm32f412 => "STM32F412.svd"@,
            Variant::Stm32f413 => "STM32F413.svd"@,
            Variant::Stm32f427 => "STM32F427.svd"@,
            Variant::Stm32f429 => "STM32F429.svd"@,
            Variant::Stm32f446 => "STM32F446.svd"@,
            Variant::Stm32f469 => "STM32F469.svd"@,
            Variant::Stm32l4x1 => "STM32L4x1.svd"@,
            Variant::Stm32l4x2 => "STM32L4x2.svd"@,
            Variant::Stm32l4x3 => "STM32L4x3.svd"@,
            Variant::Stm32l4x5 => "STM32L4x5.svd"@,
            Variant::Stm32l4x6 => "STM32L4x6.svd"@,
            Variant::Stm32l4r5 => "STM32L4R5.svd"@,
            Variant::Stm32l4r7 => "STM32L4R7.svd"@,
            Variant::Stm32l4r9 => "STM32L4R9.svd"@,
            Variant::Stm32l4s5 => "STM32L4S5.svd"@,
            Variant::Stm32l4s7 => "STM32L4S7.svd"@,
            Variant::Stm32l4s9 => "STM32L4S9.svd"@,
        }
    }

    /// The variant's family.
    pub open spec fn family_of(self) -> Family {
        match self {
            Variant::Stm32f100 | Variant::Stm32f101 | Variant::Stm32f102 | Variant::Stm32f103 | Variant::Stm32f107 => Family::F1,
            Variant::Stm32f401 | Variant::Stm32f405 | Variant::Stm32f407 | Variant::Stm32f410 | Variant::Stm32f411 | Variant::Stm32f412 | Variant::Stm32f413 | Variant::Stm32f427 | Variant::Stm32f429 | Variant::Stm32f446 | Variant::Stm32f469 => Family::F4,
            Variant::Stm32l4x1 | Variant::Stm32l4x2 | Variant::Stm32l4x3 | Variant::Stm32l4x5 | Variant::Stm32l4x6 => Family::L4,
            Variant::Stm32l4r5 | Variant::Stm32l4r7 | Variant::Stm32l4r9 | Variant::Stm32l4s5 | Variant::Stm32l4s7 | Variant::Stm32l4s9 => Family::L4Plus,
        }
    }

    /// The variant's place in the list of variants.
    pub open spec fn ordinal(self) -> int {
        match self {
            Variant::Stm32f100 => 0,
            Variant::Stm32f101 => 1,
            Variant::Stm32f102 => 2,
            Variant::Stm32f103 => 3,
            Variant::Stm32f107 => 4,
            Variant::Stm32f401 => 5,
            Variant::Stm32f405 => 6,
            Variant::Stm32f407 => 7,
            Variant::Stm32f410 => 8,
            Variant::Stm32f411 => 9,
            Variant::Stm32f412 => 10,
            Variant::Stm32f413 => 11,
            Variant::Stm32f427 => 12,
            Variant::Stm32f429 => 13,
            Variant::Stm32f446 => 14,
            Variant::Stm32f469 => 15,
            Variant::Stm32l4x1 => 16,
            Variant::Stm32l4x2 => 17,
            Variant::Stm32l4x3 => 18,
            Variant::Stm32l4x5 => 19,
            Variant::Stm32l4x6 => 20,
            Variant::Stm32l4r5 => 21,
            Variant::Stm32l4r7 => 22,
            Variant::Stm32l4r9 => 23,
            Variant::Stm32l4s5 => 24,
            Variant::Stm32l4s7 => 25,
            Variant::Stm32l4s9 => 26,
        }
    }

    /// The key that selects the variant.
    pub fn key(self) -> (r: &'static str)
        ensures
            r@ == self.key_text(),
    {
        match self {
            Variant::Stm32f100 => "stm32f100",
            Variant::Stm32f101 => "stm32f101",
            Variant::Stm32f102 => "stm32f102",
            Variant::Stm32f103 => "stm32f103",
            Variant::Stm32f107 => "stm32f107",
            Variant::Stm32f401 => "stm32f401",
            Variant::Stm32f405 => "stm32f405",
            Variant::Stm32f407 => "stm32f407",
            Variant::Stm32f410 => "stm32f410",
            Variant::Stm32f411 => "stm32f411",
            Variant::Stm32f412 => "stm32f412",
            Variant::Stm32f413 => "stm32f413",
            Variant::Stm32f427 => "stm32f427",
            Variant::Stm32f429 => "stm32f429",
            Variant::Stm32f446 => "stm32f446",
            Variant::Stm32f469 => "stm32f469",
            Variant::Stm32l4x1 => "stm32l4x1",
            Variant::Stm32l4x2 => "stm32l4x2",
            Variant::Stm32l4x3 => "stm32l4x3",
            Variant::Stm32l4x5 => "stm32l4x5",
            Variant::Stm32l4x6 => "stm32l4x6",
            Variant::Stm32l4r5 => "stm32l4r5",
            Variant::Stm32l4r7 => "stm32l4r7",
            Variant::Stm32l4r9 => "stm32l4r9",
            Variant::Stm32l4s5 => "stm32l4s5",
            Variant::Stm32l4s7 => "stm32l4s7",
            Variant::Stm32l4s9 => "stm32l4s9",
        }
    }

    /// The name of the variant's description file.
    pub fn svd_file(self) -> (r: &'static str)
        ensures
            r@ == self.file_text(),
    {
        match self {
            Variant::Stm32f100 => "STM32F100.svd",
            Variant::Stm32f101 => "STM32F101.svd",
            Variant::Stm32f102 => "STM32F102.svd",
            Variant::Stm32f103 => "STM32F103.svd",
            Variant::Stm32f107 => "STM32F107.svd",
            Variant::Stm32f401 => "STM32F401.svd",
            Variant::Stm32f405 => "STM32F405.svd",
            Variant::Stm32f407 => "STM32F407.svd",
            Variant::Stm32f410 => "STM32F410.svd",
            Variant::Stm32f411 => "STM32F411.svd",
            Variant::Stm32f412 => "STM32F412.svd",
            Variant::Stm32f413 => "STM32F413.svd",
            Variant::Stm32f427 => "STM32F427.svd",
            Variant::Stm32f429 => "STM32F429.svd",
            Variant::Stm32f446 => "STM32F446.svd",
            Variant::Stm32f469 => "STM32F469.svd",
            Variant::Stm32l4x1 => "STM32L4x1.svd",
            Variant::Stm32l4x2 => "STM32L4x2.svd",
            Variant::Stm32l4x3 => "STM32L4x3.svd",
            Variant::Stm32l4x5 => "STM32L4x5.svd",
            Variant::Stm32l4x6 => "STM32L4x6.svd",
            Variant::Stm32l4r5 => "STM32L4R5.svd",
            Variant::Stm32l4r7 => "STM32L4R7.svd",
            Variant::Stm32l4r9 => "STM32L4R9.svd",
            Variant::Stm32l4s5 => "STM32L4S5.svd",
            Variant::Stm32l4s7 => "STM32L4S7.svd",
            Variant::Stm32l4s9 => "STM32L4S9.svd",
        }
    }

    /// The variant's family.
    pub fn family(self) -> (r: Family)
        ensures
            r == self.family_of(),
    {
        match self {
            Variant::Stm32f100 | Variant::Stm32f101 | Variant::Stm32f102 | Variant::Stm32f103 | Variant::Stm32f107 => Family::F1,
            Variant::Stm32f401 | Variant::Stm32f405 | Variant::Stm32f407 | Variant::Stm32f410 | Variant::Stm32f411 | Variant::Stm32f412 | Variant::Stm32f413 | Variant::Stm32f427 | Variant::Stm32f429 | Variant::Stm32f446 | Variant::Stm32f469 => Family::F4,
            Variant::Stm32l4x1 | Variant::Stm32l4x2 | Variant::Stm32l4x3 | Variant::Stm32l4x5 | Variant::Stm32l4x6 => Family::L4,
            Variant::Stm32l4r5 | Variant::Stm32l4r7 | Variant::Stm32l4r9 | Variant::Stm32l4s5 | Variant::Stm32l4s7 | Variant::Stm32l4s9 => Family::L4Plus,
        }
    }

    /// The variant's place in the list of variants.
    pub fn index(self) -> (r: usize)
        ensures
            r == self.ordinal(),
            r < VARIANT_COUNT,
    {
        match self {
            Variant::Stm32f100 => 0,
            Variant::Stm32f101 => 1,
            Variant::Stm32f102 => 2,
            Variant::Stm32f103 => 3,
            Variant::Stm32f107 => 4,
            Variant::Stm32f401 => 5,
            Variant::Stm32f405 => 6,
            Variant::Stm32f407 => 7,
            Variant::Stm32f410 => 8,
            Variant::Stm32f411 => 9,
            Variant::Stm32f412 => 10,
            Variant::Stm32f413 => 11,
            Variant::Stm32f427 => 12,
            Variant::Stm32f429 => 13,
            Variant::Stm32f446 => 14,
            Variant::Stm32f469 => 15,
            Variant::Stm32l4x1 => 16,
            Variant::Stm32l4x2 => 17,
            Variant::Stm32l4x3 => 18,
            Variant::Stm32l4x5 => 19,
            Variant::Stm32l4x6 => 20,
            Variant::Stm32l4r5 => 21,
            Variant::Stm32l4r7 => 22,
            Variant::Stm32l4r9 => 23,
            Variant::Stm32l4s5 => 24,
            Variant::Stm32l4s7 => 25,
            Variant::Stm32l4s9 => 26,
        }
    }

    /// The variant that `key` selects. A key that selects none is refused
    /// here, before anything is read.
    pub fn from_key(key: &str) -> (r: Result<Variant, Error>)
        ensures
            match r {
                Ok(v) => v.key_text() == key@,
                Err(e) => e == Error::UnsupportedVariant && forall|v: Variant|
                    #[trigger] v.key_text() != key@,
            },
    {
        if str_eq(key, "stm32f100") {
            Ok(Variant::Stm32f100)
        } else if str_eq(key, "stm32f101") {
            Ok(Variant::Stm32f101)
        } else if str_eq(key, "stm32f102") {
            Ok(Variant::Stm32f102)
        } else if str_eq(key, "stm32f103") {
            Ok(Variant::Stm32f103)
        } else if str_eq(key, "stm32f107") {
            Ok(Variant::Stm32f107)
        } else if str_eq(key, "stm32f401") {
            Ok(Variant::Stm32f401)
        } else if str_eq(key, "stm32f405") {
            Ok(Variant::Stm32f405)
        } else if str_eq(key, "stm32f407") {
            Ok(Variant::Stm32f407)
        } else if str_eq(key, "stm32f410") {
            Ok(Variant::Stm32f410)
        } else if str_eq(key, "stm32f411") {
            Ok(Variant::Stm32f411)
        } else if str_eq(key, "stm32f412") {
            Ok(Variant::Stm32f412)
        } else if str_eq(key, "stm32f413") {
            Ok(Variant::Stm32f413)
        } else if str_eq(key, "stm32f427") {
            Ok(Variant::Stm32f427)
        } else if str_eq(key, "stm32f429") {
            Ok(Variant::Stm32f429)
        } else if str_eq(key, "stm32f446") {
            Ok(Variant::Stm32f446)
        } else if str_eq(key, "stm32f469") {
            Ok(Variant::Stm32f469)
        } else if str_eq(key, "stm32l4x1") {
            Ok(Variant::Stm32l4x1)
        } else if str_eq(key, "stm32l4x2") {
            Ok(Variant::Stm32l4x2)
        } else if str_eq(key, "stm32l4x3") {
            Ok(Variant::Stm32l4x3)
        } else if str_eq(key, "stm32l4x5") {
            Ok(Variant::Stm32l4x5)
        } else if str_eq(key, "stm32l4x6") {
            Ok(Variant::Stm32l4x6)
        } else if str_eq(key, "stm32l4r5") {
            Ok(Variant::Stm32l4r5)
        } else if str_eq(key, "stm32l4r7") {
            Ok(Variant::Stm32l4r7)
        } else if str_eq(key, "stm32l4r9") {
            Ok(Variant::Stm32l4r9)
        } else if str_eq(key, "stm32l4s5") {
            Ok(Variant::Stm32l4s5)
        } else if str_eq(key, "stm32l4s7") {
            Ok(Variant::Stm32l4s7)
        } else if str_eq(key, "stm32l4s9") {
            Ok(Variant::Stm32l4s9)
        } else {
            Err(Error::UnsupportedVariant)
        }
    }

    /// Every variant, in the order of their places.
    pub fn all() -> (r: Vec<Variant>)
        ensures
            r@.len() == VARIANT_COUNT,
            forall|v: Variant| #[trigger] r@[v.ordinal()] == v,
    {
        vec![
            Variant::Stm32f100,
            Variant::Stm32f101,
            Variant::Stm32f102,
            Variant::Stm32f103,
            Variant::Stm32f107,
            Variant::Stm32f401,
            Variant::Stm32f405,
            Variant::Stm32f407,
            Variant::Stm32f410,
            Variant::Stm32f411,
            Variant::Stm32f412,
            Variant::Stm32f413,
            Variant::Stm32f427,
            Variant::Stm32f429,
            Variant::Stm32f446,
            Variant::Stm32f469,
            Variant::Stm32l4x1,
            Variant::Stm32l4x2,
            Variant::Stm32l4x3,
            Variant::Stm32l4x5,
            Variant::Stm32l4x6,
            Variant::Stm32l4r5,
            Variant::Stm32l4r7,
            Variant::Stm32l4r9,
            Variant::Stm32l4s5,
            Variant::Stm32l4s7,
            Variant::Stm32l4s9,
        ]
    }
}

/// No two variants have the same key: a key selects one variant at most.
pub proof fn lemma_keys_distinct(a: Variant, b: Variant)
    requires
        a.key_text() == b.key_text(),
    ensures
        a == b,
{
    reveal_strlit("stm32f100");
    reveal_strlit("stm32f101");
    reveal_strlit("stm32f102");
    reveal_strlit("stm32f103");
    reveal_strlit("stm32f107");
    reveal_strlit("stm32f401");
    reveal_strlit("stm32f405");
    reveal_strlit("stm32f407");
    reveal_strlit("stm32f410");
    reveal_strlit("stm32f411");
    reveal_strlit("stm32f412");
    reveal_strlit("stm32f413");
    reveal_strlit("stm32f427");
    reveal_strlit("stm32f429");
    reveal_strlit("stm32f446");
    reveal_strlit("stm32f469");
    reveal_strlit("stm32l4x1");
    reveal_strlit("stm32l4x2");
    reveal_strlit("stm32l4x3");
    reveal_strlit("stm32l4x5");
    reveal_strlit("stm32l4x6");
    reveal_strlit("stm32l4r5");
    reveal_strlit("stm32l4r7");
    reveal_strlit("stm32l4r9");
    reveal_strlit("stm32l4s5");
    reveal_strlit("stm32l4s7");
    reveal_strlit("stm32l4s9");
    let ka = a.key_text();
    let kb = b.key_text();
    assert(ka.len() == 9 && kb.len() == 9);
    assert(ka[5] == kb[5] && ka[6] == kb[6] && ka[7] == kb[7] && ka[8] == kb[8]);
}

} // verus!
