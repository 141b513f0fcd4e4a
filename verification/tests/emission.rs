use stm32_regmap::device::Device;
use stm32_regmap::emit::{
    entry_of, generate_regs, generate_rest, index_entry_of, is_excluded, register_def_of, FieldDef,
    IndexEntry, InterruptDef, RegisterDef,
};
use stm32_regmap::field::{Access, Band, Field};
use stm32_regmap::peripheral::{Interrupt, Peripheral};
use stm32_regmap::register::Register;

fn register(name: &str, offset: u32, fields: &[(&str, u32, u32)]) -> Register {
    let mut r = Register::new(name, offset, 32, Access::ReadWrite, false).unwrap();
    for (n, o, w) in fields {
        r.add_field(Field::new(n, *o, *w, Access::ReadWrite).unwrap()).unwrap();
    }
    r
}

fn device() -> Device {
    let mut dev = Device::new("STM32F401");
    let mut nvic = Peripheral::new("NVIC", 0xE000_E100);
    nvic.add_register(register("ISER0", 0x00, &[("SETENA", 0, 32)])).unwrap();
    nvic.add_interrupt(Interrupt::new("CORE", 1));
    let mut gpioa = Peripheral::new("GPIOA", 0x4002_0000);
    gpioa.add_register(register("ODR", 0x14, &[("ODR1", 1, 1), ("ODR0", 0, 1)])).unwrap();
    gpioa.add_register(register("MODER", 0x00, &[("MODER1", 2, 2), ("MODER0", 0, 2)])).unwrap();
    let mut tim2 = Peripheral::new("TIM2", 0x4000_0000);
    tim2.add_register(register("CR1", 0x00, &[("CEN", 0, 1)])).unwrap();
    tim2.add_interrupt(Interrupt::new("TIM2", 28));
    let mut usb = Peripheral::new("OTG_FS", 0x5000_0000);
    usb.add_register(register("GOTGCTL", 0x00, &[("SRQ", 1, 1), ("HNPRQ", 9, 2)])).unwrap();
    usb.add_interrupt(Interrupt::new("OTG_FS", 67));
    usb.add_interrupt(Interrupt::new("TIM2", 29));
    usb.add_interrupt(Interrupt::new("OTG_FS_WKUP", 42));
    let mut stk = Peripheral::new("STK", 0xE000_E010);
    stk.add_register(register("CTRL", 0x00, &[])).unwrap();
    dev.add_peripheral(nvic).unwrap();
    dev.add_peripheral(usb).unwrap();
    dev.add_peripheral(gpioa).unwrap();
    dev.add_peripheral(stk).unwrap();
    dev.add_peripheral(tim2).unwrap();
    dev
}

#[test]
fn the_core_peripherals_are_excluded() {
    for name in ["FPU", "FPU_CPACR", "ITM", "MPU", "NVIC", "SCB", "STK", "TPIU"] {
        assert!(is_excluded(name));
    }
    for name in ["GPIOA", "RCC", "", "nvic", "NVIC ", "FPU_", "SCB2"] {
        assert!(!is_excluded(name));
    }
}

#[test]
fn one_pool_holds_every_definition_in_address_order() {
    let out = generate_regs(&device(), 1, 1);
    let names: Vec<(&str, &str, u64)> =
        out.iter().map(|d| (d.peripheral.as_str(), d.name.as_str(), d.address)).collect();
    assert_eq!(
        names,
        vec![
            ("TIM2", "CR1", 0x4000_0000),
            ("GPIOA", "MODER", 0x4002_0000),
            ("GPIOA", "ODR", 0x4002_0014),
            ("OTG_FS", "GOTGCTL", 0x5000_0000),
        ]
    );
}

#[test]
fn a_definition_says_what_the_register_is() {
    let out = generate_regs(&device(), 1, 1);
    assert_eq!(
        out[1],
        RegisterDef {
            peripheral: "GPIOA".to_string(),
            base_address: 0x4002_0000,
            name: "MODER".to_string(),
            address: 0x4002_0000,
            size: 32,
            access: Access::ReadWrite,
            alias: false,
            bit_band: true,
            fields: vec![
                FieldDef {
                    name: "MODER0".to_string(),
                    bit_offset: 0,
                    bit_width: 2,
                    access: Access::ReadWrite,
                    band: Band::Bits,
                },
                FieldDef {
                    name: "MODER1".to_string(),
                    bit_offset: 2,
                    bit_width: 2,
                    access: Access::ReadWrite,
                    band: Band::Bits,
                },
            ],
        }
    );
    assert_eq!(out[2].fields[0].band, Band::BitBand);
    assert_eq!(out[2].fields[1].name, "ODR1");
    assert!(!out[3].bit_band);
    assert_eq!(out[3].fields[0].band, Band::Bit);
    assert_eq!(out[3].fields[1].band, Band::Bits);
}

#[test]
fn the_bit_band_region_ends_before_0x4010_0000() {
    let mut dev = Device::new("X");
    let mut last = Peripheral::new("LAST", 0x400F_FFFC);
    last.add_register(register("R", 0, &[("B", 0, 1)])).unwrap();
    last.add_register(register("S", 4, &[("B", 0, 1)])).unwrap();
    let mut below = Peripheral::new("BELOW", 0x3FFF_FFFC);
    below.add_register(register("R", 0, &[("B", 0, 1)])).unwrap();
    below.add_register(register("S", 4, &[("B", 0, 1)])).unwrap();
    dev.add_peripheral(last).unwrap();
    dev.add_peripheral(below).unwrap();
    let out = generate_regs(&dev, 1, 1);
    let bands: Vec<(u64, bool)> = out.iter().map(|d| (d.address, d.bit_band)).collect();
    assert_eq!(
        bands,
        vec![
            (0x3FFF_FFFC, false),
            (0x4000_0000, true),
            (0x400F_FFFC, true),
            (0x4010_0000, false),
        ]
    );
}

#[test]
fn the_pools_deal_the_definitions_out_in_turn() {
    let dev = device();
    let all = generate_regs(&dev, 1, 1);
    let first = generate_regs(&dev, 1, 2);
    let second = generate_regs(&dev, 2, 2);
    assert_eq!(second, vec![all[0].clone(), all[2].clone()]);
    assert_eq!(first, vec![all[1].clone(), all[3].clone()]);
    let thirds: Vec<Vec<RegisterDef>> = (1..=3).map(|n| generate_regs(&dev, n, 3)).collect();
    assert_eq!(thirds[0], vec![all[2].clone()]);
    assert_eq!(thirds[1], vec![all[0].clone(), all[3].clone()]);
    assert_eq!(thirds[2], vec![all[1].clone()]);
    assert!(generate_regs(&dev, 0, 3).is_empty());
    assert!(generate_regs(&dev, 4, 3).is_empty());
}

#[test]
fn every_definition_is_in_one_pool() {
    let dev = device();
    let all = generate_regs(&dev, 1, 1);
    for size in 1..=6 {
        let mut seen = 0;
        for number in 1..=size {
            for d in generate_regs(&dev, number, size) {
                assert!(all.contains(&d));
                seen += 1;
            }
        }
        assert_eq!(seen, all.len());
    }
}

#[test]
fn generation_repeats_itself() {
    let dev = device();
    assert_eq!(generate_regs(&dev, 2, 3), generate_regs(&dev, 2, 3));
    assert_eq!(generate_rest(&dev), generate_rest(&dev.clone()));
}

#[test]
fn the_index_groups_the_registers_by_peripheral() {
    let rest = generate_rest(&device());
    assert_eq!(
        rest.index,
        vec![
            IndexEntry { peripheral: "TIM2".to_string(), registers: vec!["CR1".to_string()] },
            IndexEntry {
                peripheral: "GPIOA".to_string(),
                registers: vec!["MODER".to_string(), "ODR".to_string()],
            },
            IndexEntry { peripheral: "OTG_FS".to_string(), registers: vec!["GOTGCTL".to_string()] },
        ]
    );
    assert_eq!(entry_of(&rest.index, "GPIOA").map(|e| e.registers.len()), Some(2));
    assert!(entry_of(&rest.index, "NVIC").is_none());
    assert!(entry_of(&rest.index, "STK").is_none());
    assert!(entry_of(&rest.index, "GPIOB").is_none());
}

#[test]
fn each_interrupt_is_defined_once() {
    let rest = generate_rest(&device());
    assert_eq!(
        rest.interrupts,
        vec![
            InterruptDef { name: "TIM2".to_string(), number: 28, peripheral: "TIM2".to_string() },
            InterruptDef {
                name: "OTG_FS".to_string(),
                number: 67,
                peripheral: "OTG_FS".to_string(),
            },
            InterruptDef {
                name: "OTG_FS_WKUP".to_string(),
                number: 42,
                peripheral: "OTG_FS".to_string(),
            },
        ]
    );
}

#[test]
fn nothing_of_an_excluded_peripheral_is_emitted() {
    let dev = device();
    for size in 1..=3 {
        for number in 1..=size {
            for d in generate_regs(&dev, number, size) {
                assert!(!is_excluded(&d.peripheral));
            }
        }
    }
    let rest = generate_rest(&dev);
    assert!(rest.index.iter().all(|e| !is_excluded(&e.peripheral)));
    assert!(rest.interrupts.iter().all(|i| !is_excluded(&i.peripheral)));
    assert!(rest.interrupts.iter().all(|i| i.name != "CORE"));
}

#[test]
fn emitted_fields_keep_apart() {
    let out = generate_regs(&device(), 1, 1);
    for d in &out {
        for (i, f) in d.fields.iter().enumerate() {
            assert!(f.bit_width >= 1);
            assert!(f.bit_offset + f.bit_width <= d.size);
            for g in &d.fields[..i] {
                assert!(g.bit_offset + g.bit_width <= f.bit_offset);
            }
        }
    }
}

#[test]
fn aliases_may_share_an_address() {
    let mut dev = Device::new("X");
    let mut p = Peripheral::new("TIM1", 0x4001_0000);
    p.add_register(Register::new("CCMR1_Output", 0x18, 32, Access::ReadWrite, true).unwrap())
        .unwrap();
    p.add_register(Register::new("CCMR1_Input", 0x18, 32, Access::ReadWrite, true).unwrap())
        .unwrap();
    p.add_register(Register::new("CR1", 0x00, 32, Access::ReadWrite, false).unwrap()).unwrap();
    dev.add_peripheral(p).unwrap();
    let out = generate_regs(&dev, 1, 1);
    let names: Vec<&str> = out.iter().map(|d| d.name.as_str()).collect();
    assert_eq!(names, vec!["CR1", "CCMR1_Output", "CCMR1_Input"]);
    for a in &out {
        for b in &out {
            if a.name != b.name && a.address == b.address {
                assert!(a.alias && b.alias);
            }
        }
    }
}

#[test]
fn single_definitions() {
    let mut p = Peripheral::new("TIM2", 0x4000_0000);
    p.add_register(register("CR1", 0x00, &[("CEN", 0, 1)])).unwrap();
    let d = register_def_of(&p, p.register_at(0));
    assert_eq!(d.address, 0x4000_0000);
    assert_eq!(d.fields.len(), 1);
    assert_eq!(d.fields[0].band, Band::BitBand);
    let e = index_entry_of(&p);
    assert_eq!(e, IndexEntry { peripheral: "TIM2".to_string(), registers: vec!["CR1".to_string()] });
}
