use stm32_regmap::device::Device;
use stm32_regmap::error::{Entity, Error};
use stm32_regmap::field::Access;
use stm32_regmap::patch::PatchOp;
use stm32_regmap::peripheral::Peripheral;
use stm32_regmap::program::{
    patch, patch_stm32f102, patch_stm32f401, patch_stm32f410, patch_stm32l4plus, patch_stm32l4x2,
    patch_stm32l4x3, program, run_fixes, Fix, FixBook, PatchFailure, FIX_COUNT,
};
use stm32_regmap::register::Register;
use stm32_regmap::variant::{Family, Variant, VARIANT_COUNT};

#[test]
fn an_unknown_key_is_refused() {
    assert_eq!(Variant::from_key("stm32f999"), Err(Error::UnsupportedVariant));
    assert_eq!(Variant::from_key(""), Err(Error::UnsupportedVariant));
    assert_eq!(Variant::from_key("STM32F401"), Err(Error::UnsupportedVariant));
    assert_eq!(Variant::from_key("stm32f401 "), Err(Error::UnsupportedVariant));
    assert_eq!(Variant::from_key("stm32l4plus"), Err(Error::UnsupportedVariant));
}

#[test]
fn every_key_selects_its_variant() {
    let all = Variant::all();
    assert_eq!(all.len(), VARIANT_COUNT);
    assert_eq!(all.len(), 27);
    for (i, v) in all.iter().enumerate() {
        assert_eq!(v.index(), i);
        assert_eq!(Variant::from_key(v.key()), Ok(*v));
    }
    assert_eq!(Variant::from_key("stm32f100"), Ok(Variant::Stm32f100));
    assert_eq!(Variant::from_key("stm32l4s9"), Ok(Variant::Stm32l4s9));
}

#[test]
fn the_description_file_of_a_variant() {
    assert_eq!(Variant::Stm32f100.svd_file(), "STM32F100.svd");
    assert_eq!(Variant::Stm32f469.svd_file(), "STM32F469.svd");
    assert_eq!(Variant::Stm32l4x1.svd_file(), "STM32L4x1.svd");
    assert_eq!(Variant::Stm32l4r5.svd_file(), "STM32L4R5.svd");
    assert_eq!(Variant::Stm32l4s7.svd_file(), "STM32L4S7.svd");
    for v in Variant::all() {
        assert!(v.svd_file().ends_with(".svd"));
        assert_eq!(v.svd_file().to_lowercase(), format!("{}.svd", v.key()));
    }
}

#[test]
fn the_family_of_a_variant() {
    assert_eq!(Variant::Stm32f107.family(), Family::F1);
    assert_eq!(Variant::Stm32f401.family(), Family::F4);
    assert_eq!(Variant::Stm32l4x6.family(), Family::L4);
    assert_eq!(Variant::Stm32l4r9.family(), Family::L4Plus);
}

#[test]
fn variants_without_defects_have_no_corrections() {
    for v in [Variant::Stm32f100, Variant::Stm32f101, Variant::Stm32f103, Variant::Stm32f107] {
        assert!(program(v).is_empty());
    }
}

#[test]
fn the_corrections_of_some_variants() {
    assert_eq!(patch_stm32f102(), vec![Fix::Spi2_1]);
    assert_eq!(program(Variant::Stm32f102), vec![Fix::Spi2_1]);
    assert_eq!(
        patch_stm32f410(),
        vec![
            Fix::Rcc2,
            Fix::Dma2_1,
            Fix::Tim1_1,
            Fix::Tim5_1,
            Fix::Tim5_2,
            Fix::Tim9_1,
            Fix::Tim11_1,
            Fix::Adc1_1,
        ]
    );
    assert_eq!(
        patch_stm32f401(),
        vec![
            Fix::Rcc2,
            Fix::Dma2_1,
            Fix::Tim1_1,
            Fix::Tim2_2,
            Fix::Tim2_3,
            Fix::Tim3_3,
            Fix::Tim5_1,
            Fix::Tim9_1,
            Fix::Tim10_1,
            Fix::Tim10_2,
            Fix::Tim11_1,
            Fix::Tim11_2,
            Fix::Adc1_1,
        ]
    );
    assert_eq!(
        patch_stm32l4x3(),
        vec![
            Fix::AddTim3,
            Fix::Rcc4,
            Fix::Lptim1,
            Fix::Lptim2,
            Fix::Rcc1,
            Fix::Spi3_2,
            Fix::Tim1_1,
            Fix::Tim1_2,
            Fix::Tim16,
            Fix::Tim2_1,
            Fix::Tim2_3,
            Fix::Tim15,
            Fix::Tim3_1,
            Fix::Tim3_2,
        ]
    );
    assert_eq!(patch_stm32l4x2().len(), 19);
    assert_eq!(patch_stm32l4x2()[1], Fix::I2c);
    assert_eq!(patch_stm32l4plus()[0], Fix::AddDmamux1);
    assert_eq!(patch_stm32l4plus()[5], Fix::Pwr);
    assert_eq!(patch_stm32l4plus()[15], Fix::AdcFix1);
    assert_eq!(program(Variant::Stm32l4x5)[15], Fix::AddAscr);
    assert_eq!(program(Variant::Stm32l4x5)[5], Fix::Rtc);
    assert_eq!(program(Variant::Stm32f413)[2], Fix::Exti2);
    assert_eq!(program(Variant::Stm32f413)[1], Fix::Dma1);
}

#[test]
fn the_l4_plus_variants_share_their_corrections() {
    let expected = patch_stm32l4plus();
    assert_eq!(expected.len(), 16);
    for v in [
        Variant::Stm32l4r5,
        Variant::Stm32l4r7,
        Variant::Stm32l4r9,
        Variant::Stm32l4s5,
        Variant::Stm32l4s7,
        Variant::Stm32l4s9,
    ] {
        assert_eq!(program(v), expected);
    }
}

#[test]
fn no_variant_applies_a_correction_twice() {
    for v in Variant::all() {
        let fixes = program(v);
        for i in 0..fixes.len() {
            assert!(fixes[i].index() < FIX_COUNT);
            for j in 0..i {
                assert_ne!(fixes[i], fixes[j]);
            }
        }
    }
}

fn raw() -> Device {
    let mut dev = Device::new("STM32F102");
    let mut spi1 = Peripheral::new("SPI1", 0x4001_3000);
    spi1.add_register(Register::new("SR", 0x08, 32, Access::ReadWrite, false).unwrap()).unwrap();
    dev.add_peripheral(spi1).unwrap();
    dev.add_peripheral(Peripheral::new("SPI2", 0x4000_3800)).unwrap();
    dev
}

fn copy_sr() -> Vec<PatchOp> {
    vec![PatchOp::CopyRegister {
        from: "SPI1".to_string(),
        to: "SPI2".to_string(),
        register: "SR".to_string(),
    }]
}

#[test]
fn a_book_starts_empty_and_takes_definitions() {
    let mut book = FixBook::new();
    assert!(book.get(Fix::Spi2_1).is_none());
    book.define(Fix::Spi2_1, copy_sr());
    assert_eq!(book.get(Fix::Spi2_1).map(|ops| ops.len()), Some(1));
    assert_eq!(book.get(Fix::Rcc1).map(|ops| ops.len()), Some(0));
    assert!(book.get(Fix::Adc1_1).is_none());
    book.define(Fix::Spi2_1, Vec::new());
    assert_eq!(book.get(Fix::Spi2_1).map(|ops| ops.len()), Some(0));
}

#[test]
fn patch_applies_the_corrections_of_the_variant() {
    let mut book = FixBook::new();
    book.define(Fix::Spi2_1, copy_sr());
    let out = patch(raw(), Variant::Stm32f102, &book).unwrap();
    assert_eq!(out.peripheral("SPI2").unwrap().register_count(), 1);
    let untouched = patch(raw(), Variant::Stm32f103, &book).unwrap();
    assert_eq!(untouched.peripheral("SPI2").unwrap().register_count(), 0);
}

#[test]
fn patching_the_output_again_fails() {
    let mut book = FixBook::new();
    book.define(Fix::Spi2_1, copy_sr());
    let once = patch(raw(), Variant::Stm32f102, &book).unwrap();
    let twice = patch(once, Variant::Stm32f102, &book);
    assert_eq!(
        twice.err(),
        Some(PatchFailure {
            step: 0,
            fix: Fix::Spi2_1,
            index: 0,
            error: Error::DuplicateRegister
        })
    );
}

#[test]
fn a_failure_names_the_correction_and_the_operation() {
    let mut book = FixBook::new();
    book.define(Fix::Rcc2, Vec::new());
    book.define(
        Fix::Tim1_1,
        vec![
            PatchOp::CopyRegister {
                from: "SPI1".to_string(),
                to: "SPI2".to_string(),
                register: "SR".to_string(),
            },
            PatchOp::RemoveRegister { peripheral: "SPI2".to_string(), register: "CR1".to_string() },
        ],
    );
    let r = patch(raw(), Variant::Stm32f401, &book);
    assert_eq!(
        r.err(),
        Some(PatchFailure {
            step: 2,
            fix: Fix::Tim1_1,
            index: 1,
            error: Error::Lookup(Entity::Register)
        })
    );
    let fixes = vec![Fix::Tim1_1];
    let r = run_fixes(raw(), &fixes, &book);
    assert_eq!(r.err().map(|f| (f.step, f.index)), Some((0, 1)));
}
