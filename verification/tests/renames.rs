use stm32_regmap::device::Device;
use stm32_regmap::emit::{exclusion_set, generate_regs, is_excluded};
use stm32_regmap::error::{Entity, Error};
use stm32_regmap::field::{Access, Field};
use stm32_regmap::patch::{
    apply, rename_field, rename_register, run_in_place, validate, Failure, PatchOp,
};
use stm32_regmap::peripheral::Peripheral;
use stm32_regmap::register::Register;

fn timers() -> Device {
    let mut dev = Device::new("STM32L4x3");
    let mut tim2 = Peripheral::new("TIM2", 0x4000_0000);
    let mut cr1 = Register::new("CR1", 0x00, 32, Access::ReadWrite, false).unwrap();
    cr1.add_field(Field::new("CEN", 0, 1, Access::ReadWrite).unwrap()).unwrap();
    cr1.add_field(Field::new("UDIS", 1, 1, Access::ReadWrite).unwrap()).unwrap();
    tim2.add_register(cr1).unwrap();
    tim2.add_register(Register::new("CNT", 0x24, 16, Access::ReadWrite, false).unwrap()).unwrap();
    dev.add_peripheral(tim2).unwrap();
    dev
}

#[test]
fn rename_register_keeps_the_register_in_its_place() {
    let mut dev = timers();
    assert_eq!(rename_register(&mut dev, "TIM2", "CR1", "CTRL1"), Ok(()));
    let p = dev.peripheral("TIM2").unwrap();
    assert_eq!(p.register_at(0).name(), "CTRL1");
    assert_eq!(p.register_at(0).field_count(), 2);
    assert_eq!(p.register_at(0).offset(), 0);
    assert_eq!(p.register("CR1").err(), Some(Error::Lookup(Entity::Register)));
    assert_eq!(rename_register(&mut dev, "TIM2", "CTRL1", "CNT"), Err(Error::DuplicateRegister));
    assert_eq!(
        rename_register(&mut dev, "TIM2", "CR1", "X"),
        Err(Error::Lookup(Entity::Register))
    );
    assert_eq!(
        rename_register(&mut dev, "TIM9", "CR1", "X"),
        Err(Error::Lookup(Entity::Peripheral))
    );
    assert_eq!(rename_register(&mut dev, "TIM2", "CNT", "CNT"), Ok(()));
    assert_eq!(dev.peripheral("TIM2").unwrap().register_count(), 2);
}

#[test]
fn rename_field_keeps_the_field_at_its_bits() {
    let mut dev = timers();
    assert_eq!(rename_field(&mut dev, "TIM2", "CR1", "UDIS", "UPDIS"), Ok(()));
    let r = dev.peripheral("TIM2").unwrap().register("CR1").unwrap();
    assert_eq!(r.field_at(1).name(), "UPDIS");
    assert_eq!(r.field_at(1).bit_offset(), 1);
    assert_eq!(rename_field(&mut dev, "TIM2", "CR1", "UPDIS", "CEN"), Err(Error::FieldOverlap));
    assert_eq!(
        rename_field(&mut dev, "TIM2", "CR1", "UDIS", "X"),
        Err(Error::Lookup(Entity::Field))
    );
    assert_eq!(
        rename_field(&mut dev, "TIM2", "SR", "UDIS", "X"),
        Err(Error::Lookup(Entity::Register))
    );
    assert_eq!(rename_field(&mut dev, "TIM2", "CR1", "CEN", "CEN"), Ok(()));
}

#[test]
fn a_timer_that_is_32_bits_wide() {
    let mut dev = timers();
    let wide = vec![
        PatchOp::RemoveRegister { peripheral: "TIM2".to_string(), register: "CNT".to_string() },
        PatchOp::AddRegister {
            peripheral: "TIM2".to_string(),
            new_register: Register::new("CNT", 0x24, 32, Access::ReadWrite, false).unwrap(),
        },
        PatchOp::AddField {
            peripheral: "TIM2".to_string(),
            register: "CNT".to_string(),
            new_field: Field::new("CNT", 0, 32, Access::ReadWrite).unwrap(),
        },
    ];
    assert_eq!(validate(&dev, &wide), Ok(()));
    assert_eq!(dev.peripheral("TIM2").unwrap().register("CNT").unwrap().width(), 16);
    assert_eq!(run_in_place(&mut dev, &wide), Ok(()));
    let cnt = dev.peripheral("TIM2").unwrap().register("CNT").unwrap();
    assert_eq!(cnt.width(), 32);
    assert_eq!(cnt.field("CNT").unwrap().bit_width(), 32);
    assert_eq!(run_in_place(&mut dev, &wide), Ok(()));
}

#[test]
fn a_failed_run_leaves_the_device_as_it_was() {
    let mut dev = timers();
    let ops = vec![
        PatchOp::RenameField {
            peripheral: "TIM2".to_string(),
            register: "CR1".to_string(),
            field: "CEN".to_string(),
            name: "EN".to_string(),
        },
        PatchOp::AddPeripheral { new_peripheral: Peripheral::new("TIM3", 0x4000_0400) },
        PatchOp::ResizeField {
            peripheral: "TIM2".to_string(),
            register: "CR1".to_string(),
            field: "EN".to_string(),
            bit_width: 2,
        },
    ];
    let expected = Err(Failure { index: 2, error: Error::FieldOverlap });
    assert_eq!(validate(&dev, &ops), expected);
    assert_eq!(run_in_place(&mut dev, &ops), expected);
    assert_eq!(dev.peripheral_count(), 1);
    let cr1 = dev.peripheral("TIM2").unwrap().register("CR1").unwrap();
    assert_eq!(cr1.field_at(0).name(), "CEN");
    assert_eq!(apply(&mut dev, &ops[0]), Ok(()));
    assert_eq!(apply(&mut dev, &ops[1]), Ok(()));
    assert_eq!(apply(&mut dev, &ops[1]), Err(Error::DuplicatePeripheral));
    assert_eq!(apply(&mut dev, &ops[2]), Err(Error::FieldOverlap));
    assert_eq!(dev.peripheral_count(), 2);
}

#[test]
fn the_exclusion_set_is_what_is_excluded() {
    let set = exclusion_set();
    assert_eq!(set, vec!["FPU", "FPU_CPACR", "ITM", "MPU", "NVIC", "SCB", "STK", "TPIU"]);
    assert!(set.iter().all(|name| is_excluded(name)));
}

#[test]
fn definitions_ascend_peripheral_by_peripheral() {
    let mut dev = timers();
    let mut far = Peripheral::new("FAR", 0x1000_0000);
    far.add_register(Register::new("HIGH", 0x4000_0000, 32, Access::ReadWrite, false).unwrap())
        .unwrap();
    far.add_register(Register::new("LOW", 0x0, 32, Access::ReadWrite, false).unwrap()).unwrap();
    dev.add_peripheral(far).unwrap();
    let out = generate_regs(&dev, 1, 1);
    let order: Vec<(u32, u64)> = out.iter().map(|d| (d.base_address, d.address)).collect();
    assert_eq!(
        order,
        vec![
            (0x1000_0000, 0x1000_0000),
            (0x1000_0000, 0x5000_0000),
            (0x4000_0000, 0x4000_0000),
            (0x4000_0000, 0x4000_0024),
        ]
    );
    let mut sorted = order.clone();
    sorted.sort();
    assert_eq!(order, sorted);
}
