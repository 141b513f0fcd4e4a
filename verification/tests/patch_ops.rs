use stm32_regmap::device::Device;
use stm32_regmap::error::{Entity, Error};
use stm32_regmap::field::{Access, Field};
use stm32_regmap::patch::{
    add_field, add_register, copy_field, copy_register, remove_register, reposition_field,
    resize_field, run, Failure, PatchOp,
};
use stm32_regmap::peripheral::Peripheral;
use stm32_regmap::register::Register;

fn moder(pins: u32) -> Register {
    let mut r = Register::new("MODER", 0x00, 32, Access::ReadWrite, false).unwrap();
    for i in 0..pins {
        let f = Field::new(&format!("MODER{}", i), 2 * i, 2, Access::ReadWrite).unwrap();
        r.add_field(f).unwrap();
    }
    r
}

fn two_ports() -> Device {
    let mut dev = Device::new("STM32F401");
    let mut a = Peripheral::new("GPIOA", 0x4002_0000);
    a.add_register(moder(16)).unwrap();
    a.add_register(Register::new("ODR", 0x14, 32, Access::ReadWrite, false).unwrap()).unwrap();
    let mut b = Peripheral::new("GPIOB", 0x4002_0400);
    b.add_register(moder(1)).unwrap();
    dev.add_peripheral(b).unwrap();
    dev.add_peripheral(a).unwrap();
    dev
}

#[test]
fn copy_field_into_populated_register_fails_with_field_overlap() {
    let mut dev = two_ports();
    let r = copy_field(&mut dev, "GPIOA", "GPIOB", "MODER", "MODER0");
    assert_eq!(r, Err(Error::FieldOverlap));
    let b = dev.peripheral("GPIOB").unwrap();
    assert_eq!(b.register("MODER").unwrap().field_count(), 1);
}

#[test]
fn copy_field_adds_the_field_in_bit_order() {
    let mut dev = two_ports();
    assert_eq!(copy_field(&mut dev, "GPIOA", "GPIOB", "MODER", "MODER5"), Ok(()));
    assert_eq!(copy_field(&mut dev, "GPIOA", "GPIOB", "MODER", "MODER3"), Ok(()));
    let m = dev.peripheral("GPIOB").unwrap().register("MODER").unwrap();
    assert_eq!(m.field_count(), 3);
    assert_eq!(m.field_at(0).name(), "MODER0");
    assert_eq!(m.field_at(1).name(), "MODER3");
    assert_eq!(m.field_at(1).bit_offset(), 6);
    assert_eq!(m.field_at(1).bit_width(), 2);
    assert_eq!(m.field_at(2).name(), "MODER5");
    assert_eq!(m.field_at(2).bit_offset(), 10);
}

#[test]
fn copy_field_lookup_errors() {
    let mut dev = two_ports();
    assert_eq!(
        copy_field(&mut dev, "GPIOX", "GPIOB", "MODER", "MODER1"),
        Err(Error::Lookup(Entity::Peripheral))
    );
    assert_eq!(
        copy_field(&mut dev, "GPIOA", "GPIOB", "IDR", "IDR0"),
        Err(Error::Lookup(Entity::Register))
    );
    assert_eq!(
        copy_field(&mut dev, "GPIOA", "GPIOB", "MODER", "MODER16"),
        Err(Error::Lookup(Entity::Field))
    );
    assert_eq!(
        copy_field(&mut dev, "GPIOA", "GPIOC", "MODER", "MODER1"),
        Err(Error::Lookup(Entity::Peripheral))
    );
    assert_eq!(
        copy_field(&mut dev, "GPIOA", "GPIOB", "ODR", "ODR0"),
        Err(Error::Lookup(Entity::Field))
    );
}

#[test]
fn copy_register_brings_all_fields() {
    let mut dev = two_ports();
    let mut odr = Register::new("IDR", 0x10, 32, Access::ReadOnly, false).unwrap();
    odr.add_field(Field::new("IDR1", 1, 1, Access::ReadOnly).unwrap()).unwrap();
    odr.add_field(Field::new("IDR0", 0, 1, Access::ReadOnly).unwrap()).unwrap();
    assert_eq!(add_register(&mut dev, "GPIOA", odr), Ok(()));
    assert_eq!(copy_register(&mut dev, "GPIOA", "GPIOB", "IDR"), Ok(()));
    let b = dev.peripheral("GPIOB").unwrap();
    assert_eq!(b.register_count(), 2);
    let idr = b.register("IDR").unwrap();
    assert_eq!(idr.offset(), 0x10);
    assert_eq!(idr.access(), Access::ReadOnly);
    assert_eq!(idr.field_count(), 2);
    assert_eq!(idr.field_at(0).name(), "IDR0");
    assert_eq!(idr.field_at(1).name(), "IDR1");
}

#[test]
fn copy_register_twice_fails_with_duplicate_register() {
    let mut dev = two_ports();
    assert_eq!(copy_register(&mut dev, "GPIOA", "GPIOB", "ODR"), Ok(()));
    assert_eq!(
        copy_register(&mut dev, "GPIOA", "GPIOB", "ODR"),
        Err(Error::DuplicateRegister)
    );
    assert_eq!(dev.peripheral("GPIOB").unwrap().register_count(), 2);
}

#[test]
fn copy_register_lookup_errors() {
    let mut dev = two_ports();
    assert_eq!(
        copy_register(&mut dev, "GPIOZ", "GPIOB", "ODR"),
        Err(Error::Lookup(Entity::Peripheral))
    );
    assert_eq!(
        copy_register(&mut dev, "GPIOA", "GPIOB", "BSRR"),
        Err(Error::Lookup(Entity::Register))
    );
    assert_eq!(
        copy_register(&mut dev, "GPIOA", "GPIOZ", "ODR"),
        Err(Error::Lookup(Entity::Peripheral))
    );
}

#[test]
fn add_register_refuses_shared_bytes_unless_both_are_aliases() {
    let mut dev = two_ports();
    let clash = Register::new("MODER2", 0x02, 16, Access::ReadWrite, false).unwrap();
    assert_eq!(add_register(&mut dev, "GPIOA", clash), Err(Error::DuplicateRegister));
    let alias = Register::new("MODER_ALT", 0x00, 32, Access::ReadWrite, true).unwrap();
    assert_eq!(add_register(&mut dev, "GPIOA", alias), Err(Error::DuplicateRegister));
    let bsrr = Register::new("BSRR", 0x18, 32, Access::WriteOnly, true).unwrap();
    let brr = Register::new("BRR", 0x18, 32, Access::WriteOnly, true).unwrap();
    assert_eq!(add_register(&mut dev, "GPIOA", bsrr), Ok(()));
    assert_eq!(add_register(&mut dev, "GPIOA", brr), Ok(()));
    let a = dev.peripheral("GPIOA").unwrap();
    assert_eq!(a.register_count(), 4);
    assert_eq!(a.register_at(2).name(), "BSRR");
    assert_eq!(a.register_at(3).name(), "BRR");
}

#[test]
fn add_field_refuses_bits_beyond_the_register() {
    let mut dev = two_ports();
    let narrow = Register::new("SR", 0x20, 16, Access::ReadWrite, false).unwrap();
    assert_eq!(add_register(&mut dev, "GPIOA", narrow), Ok(()));
    let f = Field::new("HIGH", 12, 8, Access::ReadWrite).unwrap();
    assert_eq!(add_field(&mut dev, "GPIOA", "SR", f), Err(Error::FieldOverlap));
    let g = Field::new("LOW", 8, 8, Access::ReadWrite).unwrap();
    assert_eq!(add_field(&mut dev, "GPIOA", "SR", g), Ok(()));
    let h = Field::new("LOWER", 7, 2, Access::ReadWrite).unwrap();
    assert_eq!(add_field(&mut dev, "GPIOA", "SR", h), Err(Error::FieldOverlap));
    let same_name = Field::new("LOW", 0, 1, Access::ReadWrite).unwrap();
    assert_eq!(add_field(&mut dev, "GPIOA", "SR", same_name), Err(Error::FieldOverlap));
}

#[test]
fn remove_register_then_lookup_fails() {
    let mut dev = two_ports();
    assert_eq!(remove_register(&mut dev, "GPIOA", "ODR"), Ok(()));
    assert_eq!(
        remove_register(&mut dev, "GPIOA", "ODR"),
        Err(Error::Lookup(Entity::Register))
    );
    assert_eq!(
        remove_register(&mut dev, "GPIOQ", "ODR"),
        Err(Error::Lookup(Entity::Peripheral))
    );
    assert_eq!(dev.peripheral("GPIOA").unwrap().register_count(), 1);
}

#[test]
fn resize_field_checks_the_neighbours() {
    let mut dev = two_ports();
    assert_eq!(
        resize_field(&mut dev, "GPIOA", "MODER", "MODER3", 3),
        Err(Error::FieldOverlap)
    );
    assert_eq!(resize_field(&mut dev, "GPIOA", "MODER", "MODER3", 1), Ok(()));
    assert_eq!(resize_field(&mut dev, "GPIOA", "MODER", "MODER15", 3), Err(Error::FieldOverlap));
    assert_eq!(resize_field(&mut dev, "GPIOA", "MODER", "MODER15", 0), Err(Error::FieldOverlap));
    assert_eq!(
        resize_field(&mut dev, "GPIOA", "MODER", "NONE", 1),
        Err(Error::Lookup(Entity::Field))
    );
    let m = dev.peripheral("GPIOA").unwrap().register("MODER").unwrap();
    assert_eq!(m.field("MODER3").unwrap().bit_width(), 1);
    assert_eq!(m.field("MODER3").unwrap().bit_offset(), 6);
    assert_eq!(m.field_count(), 16);
}

#[test]
fn reposition_field_moves_the_field_in_the_order() {
    let mut dev = two_ports();
    assert_eq!(reposition_field(&mut dev, "GPIOB", "MODER", "MODER0", 30), Ok(()));
    assert_eq!(copy_field(&mut dev, "GPIOA", "GPIOB", "MODER", "MODER1"), Ok(()));
    let m = dev.peripheral("GPIOB").unwrap().register("MODER").unwrap();
    assert_eq!(m.field_at(0).name(), "MODER1");
    assert_eq!(m.field_at(1).name(), "MODER0");
    assert_eq!(m.field_at(1).bit_offset(), 30);
    let mut dev = two_ports();
    assert_eq!(
        reposition_field(&mut dev, "GPIOA", "MODER", "MODER0", 3),
        Err(Error::FieldOverlap)
    );
    assert_eq!(
        reposition_field(&mut dev, "GPIOA", "MODER", "MODER0", 31),
        Err(Error::FieldOverlap)
    );
    assert_eq!(reposition_field(&mut dev, "GPIOA", "MODER", "MODER0", 0), Ok(()));
}

fn sample_program() -> Vec<PatchOp> {
    vec![
        PatchOp::CopyRegister {
            from: "GPIOA".to_string(),
            to: "GPIOB".to_string(),
            register: "ODR".to_string(),
        },
        PatchOp::CopyField {
            from: "GPIOA".to_string(),
            to: "GPIOB".to_string(),
            register: "MODER".to_string(),
            field: "MODER7".to_string(),
        },
    ]
}

#[test]
fn a_program_applied_to_its_own_output_fails() {
    let dev = two_ports();
    let program = sample_program();
    let once = run(dev, &program).unwrap();
    assert_eq!(once.peripheral("GPIOB").unwrap().register_count(), 2);
    let twice = run(once, &program);
    assert_eq!(twice.err(), Some(Failure { index: 0, error: Error::DuplicateRegister }));
}

#[test]
fn a_failure_names_the_operation() {
    let dev = two_ports();
    let mut program = sample_program();
    program.push(PatchOp::RemoveRegister {
        peripheral: "GPIOB".to_string(),
        register: "IDR".to_string(),
    });
    let r = run(dev, &program);
    assert_eq!(r.err(), Some(Failure { index: 2, error: Error::Lookup(Entity::Register) }));
}

#[test]
fn the_empty_program_is_the_identity() {
    let dev = two_ports();
    let out = run(dev, &Vec::new()).unwrap();
    assert_eq!(out.peripheral_count(), 2);
    assert_eq!(out.peripheral_at(0).name(), "GPIOA");
    assert_eq!(out.peripheral_at(1).name(), "GPIOB");
    assert_eq!(out.peripheral("GPIOA").unwrap().register_count(), 2);
}
