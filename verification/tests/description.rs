use stm32_regmap::error::Error;
use stm32_regmap::field::{Access, Field};
use stm32_regmap::number::{inherited, parse_int};
use stm32_regmap::peripheral::Peripheral;
use stm32_regmap::register::Register;

#[test]
fn decimal_hexadecimal_and_octal_numbers() {
    assert_eq!(parse_int("0"), Ok(0));
    assert_eq!(parse_int("7"), Ok(7));
    assert_eq!(parse_int("32"), Ok(32));
    assert_eq!(parse_int("4294967295"), Ok(u32::MAX));
    assert_eq!(parse_int("0x0"), Ok(0));
    assert_eq!(parse_int("0x20"), Ok(32));
    assert_eq!(parse_int("0X20"), Ok(32));
    assert_eq!(parse_int("0x40020000"), Ok(0x4002_0000));
    assert_eq!(parse_int("0xFFFFFFFF"), Ok(u32::MAX));
    assert_eq!(parse_int("0xffffffff"), Ok(u32::MAX));
    assert_eq!(parse_int("0xaBcD"), Ok(0xABCD));
    assert_eq!(parse_int("010"), Ok(8));
    assert_eq!(parse_int("00"), Ok(0));
    assert_eq!(parse_int("037777777777"), Ok(u32::MAX));
    assert_eq!(parse_int("+5"), Ok(5));
    assert_eq!(parse_int("0x+ff"), Ok(255));
    assert_eq!(parse_int("0+7"), Ok(7));
}

#[test]
fn what_is_no_number_is_malformed() {
    for text in [
        "", "0x", "0X", "+", "0x+", "-1", "1 ", " 1", "1_000", "12a", "0xG", "08", "0x1x", "++1",
        "0b101", "#101", "1k", "é", "0é", "٣",
    ] {
        assert_eq!(parse_int(text), Err(Error::Parse), "{:?}", text);
    }
}

#[test]
fn a_number_beyond_32_bits_is_malformed() {
    assert_eq!(parse_int("4294967296"), Err(Error::Parse));
    assert_eq!(parse_int("0x100000000"), Err(Error::Parse));
    assert_eq!(parse_int("040000000000"), Err(Error::Parse));
    assert_eq!(parse_int("99999999999999999999999999"), Err(Error::Parse));
    assert_eq!(parse_int("0xFFFFFFFFFFFFFFFFFFFFFFFFF"), Err(Error::Parse));
}

#[test]
fn the_parsed_number_agrees_with_the_standard_library() {
    for text in ["0", "1", "9", "10", "255", "65535", "123456789", "4294967295", "4294967296"] {
        assert_eq!(parse_int(text).ok(), text.parse::<u32>().ok());
        let hex = format!("0x{}", text);
        assert_eq!(parse_int(&hex).ok(), u32::from_str_radix(text, 16).ok());
    }
}

#[test]
fn the_nearest_value_decides() {
    assert_eq!(inherited(Some(8), Some(16), Some(32)), Some(8));
    assert_eq!(inherited(None, Some(16), Some(32)), Some(16));
    assert_eq!(inherited(None, None, Some(32)), Some(32));
    assert_eq!(inherited::<u32>(None, None, None), None);
    assert_eq!(inherited(Some(Access::ReadOnly), None, Some(Access::ReadWrite)), Some(Access::ReadOnly));
}

#[test]
fn a_field_by_offset_and_width_or_by_its_bits() {
    let rw = Access::ReadWrite;
    let f = Field::described("A", Some(4), Some(2), None, None, rw).unwrap();
    assert_eq!((f.bit_offset(), f.bit_width()), (4, 2));
    let f = Field::described("A", None, None, Some(4), Some(7), rw).unwrap();
    assert_eq!((f.bit_offset(), f.bit_width()), (4, 4));
    let f = Field::described("A", None, None, Some(0), Some(31), rw).unwrap();
    assert_eq!((f.bit_offset(), f.bit_width()), (0, 32));
    let f = Field::described("A", None, None, Some(9), Some(9), rw).unwrap();
    assert_eq!((f.bit_offset(), f.bit_width()), (9, 1));
    let f = Field::described("A", Some(3), None, Some(1), Some(2), rw).unwrap();
    assert_eq!((f.bit_offset(), f.bit_width()), (3, 2));
    let f = Field::described("A", None, Some(5), Some(1), None, rw).unwrap();
    assert_eq!((f.bit_offset(), f.bit_width()), (1, 5));
    assert_eq!(f.name(), "A");
    assert_eq!(f.access(), rw);
}

#[test]
fn a_field_that_is_described_too_little_is_malformed() {
    let rw = Access::ReadWrite;
    assert_eq!(Field::described("A", None, None, None, None, rw).err(), Some(Error::Parse));
    assert_eq!(Field::described("A", Some(1), None, None, None, rw).err(), Some(Error::Parse));
    assert_eq!(Field::described("A", None, Some(1), None, None, rw).err(), Some(Error::Parse));
    assert_eq!(Field::described("A", None, None, Some(1), None, rw).err(), Some(Error::Parse));
    assert_eq!(Field::described("A", None, None, None, Some(1), rw).err(), Some(Error::Parse));
    assert_eq!(Field::described("A", None, None, Some(5), Some(4), rw).err(), Some(Error::Parse));
    assert_eq!(Field::described("A", None, None, Some(0), Some(32), rw).err(), Some(Error::Parse));
    assert_eq!(
        Field::described("A", None, None, Some(0), Some(u32::MAX), rw).err(),
        Some(Error::Parse)
    );
    assert_eq!(Field::described("A", Some(31), Some(2), None, None, rw).err(), Some(Error::Parse));
    assert_eq!(Field::described("A", Some(0), Some(0), None, None, rw).err(), Some(Error::Parse));
}

fn port(name: &str, base: u32, registers: &[(&str, u32)]) -> Peripheral {
    let mut p = Peripheral::new(name, base);
    for (name, offset) in registers {
        let mut r = Register::new(name, *offset, 32, Access::ReadWrite, false).unwrap();
        r.add_field(Field::new("B0", 0, 1, Access::ReadWrite).unwrap()).unwrap();
        p.add_register(r).unwrap();
    }
    p
}

#[test]
fn a_derived_peripheral_takes_the_registers_it_lacks() {
    let parent = port("GPIOA", 0x4002_0000, &[("MODER", 0), ("IDR", 0x10), ("ODR", 0x14)]);
    let mut derived = Peripheral::new("GPIOB", 0x4002_0400);
    let mut own = Register::new("IDR", 0x10, 32, Access::ReadOnly, false).unwrap();
    own.add_field(Field::new("IDR0", 0, 1, Access::ReadOnly).unwrap()).unwrap();
    derived.add_register(own).unwrap();
    assert_eq!(derived.inherit_registers(&parent), Ok(()));
    assert_eq!(derived.name(), "GPIOB");
    assert_eq!(derived.base_address(), 0x4002_0400);
    assert_eq!(derived.register_count(), 3);
    let names: Vec<&str> = (0..3).map(|i| derived.register_at(i).name()).collect();
    assert_eq!(names, vec!["MODER", "IDR", "ODR"]);
    assert_eq!(derived.register("IDR").unwrap().access(), Access::ReadOnly);
    assert_eq!(derived.register("IDR").unwrap().field_at(0).name(), "IDR0");
    assert_eq!(derived.register("ODR").unwrap().field_at(0).name(), "B0");
    assert_eq!(derived.inherit_registers(&parent), Ok(()));
    assert_eq!(derived.register_count(), 3);
}

#[test]
fn inheriting_is_all_or_nothing() {
    let parent = port("TIM1", 0x4001_0000, &[("CR1", 0), ("CR2", 0x4), ("SR", 0x10)]);
    let mut derived = port("TIM8", 0x4001_0400, &[("SMCR", 0x6)]);
    assert_eq!(derived.register_at(0).width(), 32);
    assert_eq!(derived.inherit_registers(&parent), Err(Error::DuplicateRegister));
    assert_eq!(derived.register_count(), 1);
    assert_eq!(derived.register_at(0).name(), "SMCR");
}
