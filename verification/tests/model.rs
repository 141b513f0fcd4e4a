use stm32_regmap::device::Device;
use stm32_regmap::error::{Entity, Error};
use stm32_regmap::field::{Access, Band, Field};
use stm32_regmap::peripheral::{Interrupt, Peripheral};
use stm32_regmap::register::Register;

#[test]
fn a_field_needs_a_bit_and_ends_within_32() {
    assert!(Field::new("A", 0, 1, Access::ReadWrite).is_ok());
    assert!(Field::new("A", 31, 1, Access::ReadWrite).is_ok());
    assert!(Field::new("A", 0, 32, Access::ReadWrite).is_ok());
    assert_eq!(Field::new("A", 0, 0, Access::ReadWrite).err(), Some(Error::Parse));
    assert_eq!(Field::new("A", 32, 1, Access::ReadWrite).err(), Some(Error::Parse));
    assert_eq!(Field::new("A", 1, 32, Access::ReadWrite).err(), Some(Error::Parse));
    assert_eq!(Field::new("A", u32::MAX, u32::MAX, Access::ReadWrite).err(), Some(Error::Parse));
}

#[test]
fn a_field_reports_what_it_was_made_with() {
    let f = Field::new("MODER3", 6, 2, Access::ReadOnly).unwrap();
    assert_eq!(f.name(), "MODER3");
    assert_eq!(f.bit_offset(), 6);
    assert_eq!(f.bit_width(), 2);
    assert_eq!(f.end(), 8);
    assert_eq!(f.access(), Access::ReadOnly);
    let g = f.clone();
    assert_eq!(g.name(), "MODER3");
    assert_eq!(g.bit_offset(), 6);
    assert_eq!(g.bit_width(), 2);
}

#[test]
fn the_band_of_a_field() {
    let bit = Field::new("EN", 3, 1, Access::ReadWrite).unwrap();
    let bits = Field::new("MODE", 4, 2, Access::ReadWrite).unwrap();
    assert_eq!(bit.band(false), Band::Bit);
    assert_eq!(bit.band(true), Band::BitBand);
    assert_eq!(bits.band(false), Band::Bits);
    assert_eq!(bits.band(true), Band::Bits);
}

#[test]
fn fields_overlap_when_they_share_a_bit() {
    let a = Field::new("A", 0, 4, Access::ReadWrite).unwrap();
    let b = Field::new("B", 3, 1, Access::ReadWrite).unwrap();
    let c = Field::new("C", 4, 4, Access::ReadWrite).unwrap();
    assert!(a.overlaps(&b));
    assert!(b.overlaps(&a));
    assert!(!a.overlaps(&c));
    assert!(!c.overlaps(&a));
    assert!(a.overlaps(&a));
}

#[test]
fn a_register_is_8_16_or_32_bits_wide() {
    assert!(Register::new("R", 0, 8, Access::ReadWrite, false).is_ok());
    assert!(Register::new("R", 0, 16, Access::ReadWrite, false).is_ok());
    assert!(Register::new("R", 0, 32, Access::ReadWrite, false).is_ok());
    assert_eq!(Register::new("R", 0, 0, Access::ReadWrite, false).err(), Some(Error::Parse));
    assert_eq!(Register::new("R", 0, 24, Access::ReadWrite, false).err(), Some(Error::Parse));
    assert_eq!(Register::new("R", 0, 64, Access::ReadWrite, false).err(), Some(Error::Parse));
}

#[test]
fn a_register_keeps_its_fields_in_bit_order() {
    let mut r = Register::new("CR", 0x04, 16, Access::ReadWrite, false).unwrap();
    r.add_field(Field::new("C", 8, 4, Access::ReadWrite).unwrap()).unwrap();
    r.add_field(Field::new("A", 0, 4, Access::ReadWrite).unwrap()).unwrap();
    r.add_field(Field::new("D", 12, 4, Access::ReadWrite).unwrap()).unwrap();
    r.add_field(Field::new("B", 4, 4, Access::ReadWrite).unwrap()).unwrap();
    assert_eq!(r.field_count(), 4);
    let names: Vec<&str> = (0..4).map(|i| r.field_at(i).name()).collect();
    assert_eq!(names, vec!["A", "B", "C", "D"]);
    assert_eq!(r.find_field("C"), Some(2));
    assert_eq!(r.find_field("E"), None);
    assert_eq!(r.field("E").err(), Some(Error::Lookup(Entity::Field)));
    assert_eq!(r.bytes(), 2);
    assert_eq!(r.offset(), 0x04);
    assert_eq!(r.width(), 16);
    assert!(!r.is_alias());
}

#[test]
fn a_full_register_admits_nothing() {
    let mut r = Register::new("DR", 0, 8, Access::ReadWrite, false).unwrap();
    r.add_field(Field::new("DATA", 0, 8, Access::ReadWrite).unwrap()).unwrap();
    for bit in 0..8 {
        let f = Field::new("X", bit, 1, Access::ReadWrite).unwrap();
        assert!(!r.admits(&f));
        assert_eq!(r.add_field(f), Err(Error::FieldOverlap));
    }
    assert_eq!(r.field_count(), 1);
}

#[test]
fn remove_field_takes_the_field_out() {
    let mut r = Register::new("CR", 0, 32, Access::ReadWrite, false).unwrap();
    r.add_field(Field::new("A", 0, 4, Access::ReadWrite).unwrap()).unwrap();
    r.add_field(Field::new("B", 4, 4, Access::ReadWrite).unwrap()).unwrap();
    let f = r.remove_field("A").unwrap();
    assert_eq!(f.name(), "A");
    assert_eq!(r.field_count(), 1);
    assert_eq!(r.field_at(0).name(), "B");
    assert_eq!(r.remove_field("A").err(), Some(Error::Lookup(Entity::Field)));
}

#[test]
fn a_peripheral_keeps_its_registers_in_address_order() {
    let mut p = Peripheral::new("TIM2", 0x4000_0000);
    p.add_register(Register::new("SR", 0x10, 32, Access::ReadWrite, false).unwrap()).unwrap();
    p.add_register(Register::new("CR1", 0x00, 32, Access::ReadWrite, false).unwrap()).unwrap();
    p.add_register(Register::new("CR2", 0x04, 16, Access::ReadWrite, false).unwrap()).unwrap();
    p.add_register(Register::new("SMCR", 0x06, 16, Access::ReadWrite, false).unwrap()).unwrap();
    assert_eq!(p.register_count(), 4);
    let names: Vec<&str> = (0..4).map(|i| p.register_at(i).name()).collect();
    assert_eq!(names, vec!["CR1", "CR2", "SMCR", "SR"]);
    assert_eq!(p.find_register("SMCR"), Some(2));
    assert_eq!(p.register("DIER").err(), Some(Error::Lookup(Entity::Register)));
    let dup = Register::new("SR", 0x20, 32, Access::ReadWrite, false).unwrap();
    assert!(!p.admits(&dup));
    assert_eq!(p.add_register(dup), Err(Error::DuplicateRegister));
    let overlap = Register::new("CR2H", 0x05, 8, Access::ReadWrite, false).unwrap();
    assert_eq!(p.add_register(overlap), Err(Error::DuplicateRegister));
    assert_eq!(p.register_count(), 4);
}

#[test]
fn a_peripheral_keeps_its_interrupts_as_given() {
    let mut p = Peripheral::new("TIM2", 0x4000_0000);
    p.add_interrupt(Interrupt::new("TIM2", 28));
    p.add_interrupt(Interrupt::new("TIM2_WKUP", 90));
    assert_eq!(p.interrupt_count(), 2);
    assert_eq!(p.interrupt_at(0).name(), "TIM2");
    assert_eq!(p.interrupt_at(0).number(), 28);
    assert_eq!(p.interrupt_at(1).name(), "TIM2_WKUP");
    let q = p.clone();
    assert_eq!(q.interrupt_count(), 2);
    assert_eq!(q.name(), "TIM2");
    assert_eq!(q.base_address(), 0x4000_0000);
}

#[test]
fn a_device_keeps_its_peripherals_in_address_order() {
    let mut dev = Device::new("STM32F103");
    assert_eq!(dev.add_peripheral(Peripheral::new("TIM3", 0x4000_0400)), Ok(()));
    assert_eq!(dev.add_peripheral(Peripheral::new("GPIOA", 0x4001_0800)), Ok(()));
    assert_eq!(dev.add_peripheral(Peripheral::new("TIM2", 0x4000_0000)), Ok(()));
    assert_eq!(dev.name(), "STM32F103");
    assert_eq!(dev.peripheral_count(), 3);
    let names: Vec<&str> = (0..3).map(|i| dev.peripheral_at(i).name()).collect();
    assert_eq!(names, vec!["TIM2", "TIM3", "GPIOA"]);
    assert_eq!(dev.find_peripheral("TIM3"), Some(1));
    assert_eq!(dev.peripheral("TIM4").err(), Some(Error::Lookup(Entity::Peripheral)));
}

#[test]
fn a_device_refuses_a_second_name_or_base_address() {
    let mut dev = Device::new("STM32F103");
    assert_eq!(dev.add_peripheral(Peripheral::new("TIM2", 0x4000_0000)), Ok(()));
    assert_eq!(
        dev.add_peripheral(Peripheral::new("TIM2", 0x4000_0400)),
        Err(Error::DuplicatePeripheral)
    );
    assert_eq!(
        dev.add_peripheral(Peripheral::new("TIM3", 0x4000_0000)),
        Err(Error::DuplicatePeripheral)
    );
    assert_eq!(dev.peripheral_count(), 1);
}

#[test]
fn a_clone_of_a_device_is_the_same_device() {
    let mut dev = Device::new("STM32F103");
    let mut p = Peripheral::new("TIM2", 0x4000_0000);
    let mut r = Register::new("CR1", 0, 16, Access::ReadWrite, false).unwrap();
    r.add_field(Field::new("CEN", 0, 1, Access::ReadWrite).unwrap()).unwrap();
    p.add_register(r).unwrap();
    dev.add_peripheral(p).unwrap();
    let copy = dev.clone();
    assert_eq!(copy.name(), "STM32F103");
    let r = copy.peripheral("TIM2").unwrap().register("CR1").unwrap();
    assert_eq!(r.field("CEN").unwrap().bit_width(), 1);
    assert_eq!(r.width(), 16);
}

#[test]
fn every_error_has_a_message() {
    assert_eq!(Error::UnsupportedVariant.message(), "invalid `stm32_mcu` cfg flag");
    assert_eq!(Error::Lookup(Entity::Peripheral).message(), "peripheral not found");
    assert_eq!(Error::Lookup(Entity::Register).message(), "register not found");
    assert_eq!(Error::Lookup(Entity::Field).message(), "field not found");
    assert_eq!(Error::DuplicateRegister.message(), "register already present");
    assert_eq!(Error::DuplicatePeripheral.message(), "peripheral already present");
    assert_eq!(Error::FieldOverlap.message(), "field overlaps another field");
    assert_eq!(Error::Parse.message(), "malformed device description");
}
