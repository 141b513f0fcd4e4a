use stm32_regmap::agreement::{agrees, check_field, check_fields, check_register, holds_token};
use stm32_regmap::bits::{extract, insert, mask};
use stm32_regmap::device::Device;
use stm32_regmap::field::{Access, Band, Field};
use stm32_regmap::peripheral::Peripheral;
use stm32_regmap::register::Register;
use stm32_regmap::schema::{
    field_name, pin_digits, slot, Block, Ownership, Port, Reg, Registry, Slot, Stem, TokenSet,
    PORT_COUNT, REG_COUNT,
};
use stm32_regmap::variant::{Family, Variant};

fn claim(variant: Variant, port: Port) -> TokenSet {
    Registry::new(variant).claim(port).unwrap()
}

fn layout(set: &TokenSet) -> Vec<(Reg, String, Vec<(String, u32, u32, Access, Band)>)> {
    let mut out = Vec::new();
    for i in 0..set.register_count() {
        let r = set.register_at(i);
        if r.reg().ownership() == Ownership::Exclusive {
            let mut fields = Vec::new();
            for k in 0..r.field_count() {
                let f = r.field_at(k);
                let s = f.slot();
                fields.push((f.name().to_string(), s.bit_offset, s.bit_width, s.access, s.band));
            }
            out.push((r.reg(), r.name().to_string(), fields));
        }
    }
    out
}

#[test]
fn two_ports_have_the_same_layout_and_different_identities() {
    for variant in Variant::all() {
        let a = claim(variant, Port::A);
        let b = claim(variant, Port::B);
        assert_eq!(layout(&a), layout(&b));
        assert_ne!(a.port(), b.port());
        assert_eq!(a.register_count(), b.register_count());
        for i in 0..a.register_count() {
            let ra = a.register_at(i);
            let rb = b.register_at(i);
            assert_eq!(ra.reg(), rb.reg());
            match ra.reg().block() {
                Block::Gpio => {
                    assert_eq!(ra.peripheral(), "GPIOA");
                    assert_eq!(rb.peripheral(), "GPIOB");
                }
                Block::Rcc => {
                    assert_eq!(ra.peripheral(), "RCC");
                    assert_eq!(rb.peripheral(), "RCC");
                    assert_ne!(ra.field_at(0).name(), rb.field_at(0).name());
                    assert_ne!(ra.field_at(0).slot().bit_offset, rb.field_at(0).slot().bit_offset);
                }
            }
        }
    }
}

#[test]
fn two_shared_owners_toggle_their_own_bits() {
    let a = claim(Variant::Stm32f401, Port::A);
    let b = claim(Variant::Stm32f401, Port::B);
    let en_a = a.register(Reg::Busenr).unwrap().field_at(0);
    let en_b = b.register(Reg::Busenr).unwrap().field_at(0);
    assert_eq!(a.register(Reg::Busenr).unwrap().name(), "AHB1ENR");
    assert_eq!(b.register(Reg::Busenr).unwrap().name(), "AHB1ENR");
    assert_eq!(en_a.name(), "GPIOAEN");
    assert_eq!(en_b.name(), "GPIOBEN");
    let word: u32 = 0x0010_0000;
    let w1 = en_a.set(word);
    assert_eq!(w1, 0x0010_0001);
    assert_eq!(en_b.read(w1), 0);
    let w2 = en_b.set(w1);
    assert_eq!(w2, 0x0010_0003);
    assert_eq!(en_a.read(w2), 1);
    assert_eq!(en_b.read(w2), 1);
    let w3 = en_a.clear(w2);
    assert_eq!(w3, 0x0010_0002);
    assert_eq!(en_a.read(w3), 0);
    assert_eq!(en_b.read(w3), 1);
    let w4 = en_b.clear(w3);
    assert_eq!(w4, word);
    assert_eq!(en_b.set(en_a.set(word)), en_a.set(en_b.set(word)));
}

#[test]
fn the_shared_bits_of_the_ports() {
    assert_eq!(Port::A.shared_bit(Family::F1), 2);
    assert_eq!(Port::G.shared_bit(Family::F1), 8);
    assert_eq!(Port::A.shared_bit(Family::F4), 0);
    assert_eq!(Port::K.shared_bit(Family::F4), 10);
    assert_eq!(Port::I.shared_bit(Family::L4), 8);
    assert_eq!(Port::I.shared_bit(Family::L4Plus), 8);
    for family in [Family::F1, Family::F4, Family::L4, Family::L4Plus] {
        for i in 0..PORT_COUNT as u32 {
            for j in 0..i {
                let a = Port::from_index(i).unwrap();
                let b = Port::from_index(j).unwrap();
                assert_ne!(a.shared_bit(family), b.shared_bit(family));
            }
        }
    }
    assert_eq!(Port::from_index(11), None);
    assert_eq!(Port::from_index(3), Some(Port::D));
    assert_eq!(Port::D.index(), 3);
}

#[test]
fn a_port_is_handed_out_once() {
    let mut registry = Registry::new(Variant::Stm32f103);
    assert_eq!(registry.variant(), Variant::Stm32f103);
    assert!(!registry.is_claimed(Port::C));
    let c = registry.claim(Port::C);
    assert!(c.is_some());
    assert!(registry.is_claimed(Port::C));
    assert!(registry.claim(Port::C).is_none());
    assert!(!registry.is_claimed(Port::A));
    assert!(registry.claim(Port::A).is_some());
    assert!(registry.claim(Port::A).is_none());
    assert!(registry.claim(Port::H).is_none());
    assert!(!registry.is_claimed(Port::H));
    assert!(registry.is_claimed(Port::C));
    let set = c.unwrap();
    assert_eq!(set.port(), Port::C);
    assert_eq!(set.variant(), Variant::Stm32f103);
}

fn ports_of(variant: Variant) -> String {
    let mut s = String::new();
    for i in 0..PORT_COUNT as u32 {
        let p = Port::from_index(i).unwrap();
        assert_eq!(p.is_on(variant), Registry::new(variant).claim(p).is_some());
        if p.is_on(variant) {
            s.push_str(p.letter());
        }
    }
    s
}

#[test]
fn the_ports_of_each_variant() {
    assert_eq!(ports_of(Variant::Stm32f100), "ABCDEFG");
    assert_eq!(ports_of(Variant::Stm32f101), "ABCDEFG");
    assert_eq!(ports_of(Variant::Stm32f102), "ABCD");
    assert_eq!(ports_of(Variant::Stm32f103), "ABCDEFG");
    assert_eq!(ports_of(Variant::Stm32f107), "ABCDE");
    assert_eq!(ports_of(Variant::Stm32f401), "ABCDEH");
    assert_eq!(ports_of(Variant::Stm32f405), "ABCDEFGHIJK");
    assert_eq!(ports_of(Variant::Stm32f407), "ABCDEFGHIJK");
    assert_eq!(ports_of(Variant::Stm32f410), "ABCH");
    assert_eq!(ports_of(Variant::Stm32f411), "ABCDEH");
    assert_eq!(ports_of(Variant::Stm32f412), "ABCDEFGH");
    assert_eq!(ports_of(Variant::Stm32f413), "ABCDEFGH");
    assert_eq!(ports_of(Variant::Stm32f427), "ABCDEFGHIJK");
    assert_eq!(ports_of(Variant::Stm32f429), "ABCDEFGHIJK");
    assert_eq!(ports_of(Variant::Stm32f446), "ABCDEFGH");
    assert_eq!(ports_of(Variant::Stm32f469), "ABCDEFGHIJK");
    assert_eq!(ports_of(Variant::Stm32l4x1), "ABCDEH");
    assert_eq!(ports_of(Variant::Stm32l4x2), "ABCDEH");
    assert_eq!(ports_of(Variant::Stm32l4x3), "ABCDEH");
    assert_eq!(ports_of(Variant::Stm32l4x5), "ABCDEFGH");
    assert_eq!(ports_of(Variant::Stm32l4x6), "ABCDEFGHI");
    for v in [
        Variant::Stm32l4r5,
        Variant::Stm32l4r7,
        Variant::Stm32l4r9,
        Variant::Stm32l4s5,
        Variant::Stm32l4s7,
        Variant::Stm32l4s9,
    ] {
        assert_eq!(ports_of(v), "ABCDEFGHI");
    }
}

fn registers_of(variant: Variant, port: Port) -> Vec<String> {
    let set = claim(variant, port);
    (0..set.register_count()).map(|i| set.register_at(i).reg().text().to_string()).collect()
}

#[test]
fn the_registers_of_a_port_on_each_family() {
    assert_eq!(
        registers_of(Variant::Stm32f103, Port::A),
        vec!["BUSENR", "BUSRSTR", "BRR", "BSRR", "CRL", "CRH", "IDR", "LCKR", "ODR"]
    );
    assert_eq!(
        registers_of(Variant::Stm32f407, Port::K),
        vec![
            "BUSENR", "BUSRSTR", "BUSSMENR", "AFRL", "AFRH", "BSRR", "IDR", "LCKR", "MODER", "ODR",
            "OSPEEDR", "OTYPER", "PUPDR"
        ]
    );
    assert_eq!(registers_of(Variant::Stm32l4x1, Port::A), registers_of(Variant::Stm32f407, Port::K));
    assert_eq!(
        registers_of(Variant::Stm32l4x5, Port::A),
        vec![
            "BUSENR", "BUSRSTR", "BUSSMENR", "AFRL", "AFRH", "ASCR", "BSRR", "IDR", "LCKR", "MODER",
            "ODR", "OSPEEDR", "OTYPER", "PUPDR"
        ]
    );
    assert_eq!(
        registers_of(Variant::Stm32l4x6, Port::H),
        vec![
            "BUSENR", "BUSRSTR", "BUSSMENR", "AFRL", "AFRH", "ASCR", "BRR", "BSRR", "IDR", "LCKR",
            "MODER", "ODR", "OSPEEDR", "OTYPER", "PUPDR"
        ]
    );
    assert_eq!(
        registers_of(Variant::Stm32l4x6, Port::I),
        vec![
            "BUSENR", "BUSRSTR", "BUSSMENR", "AFRL", "AFRH", "BRR", "BSRR", "IDR", "LCKR", "MODER",
            "ODR", "OSPEEDR", "OTYPER", "PUPDR"
        ]
    );
    assert_eq!(registers_of(Variant::Stm32l4r5, Port::A), registers_of(Variant::Stm32l4x6, Port::I));
}

#[test]
fn the_names_in_the_description() {
    let f1 = claim(Variant::Stm32f100, Port::G);
    let r = f1.register(Reg::Busenr).unwrap();
    assert_eq!((r.peripheral(), r.name(), r.field_at(0).name()), ("RCC", "APB2ENR", "IOPGEN"));
    let r = f1.register(Reg::Busrstr).unwrap();
    assert_eq!((r.name(), r.field_at(0).name()), ("APB2RSTR", "IOPGRST"));
    assert!(f1.register(Reg::Bussmenr).is_none());
    assert!(f1.register(Reg::Moder).is_none());
    let r = f1.register(Reg::Crh).unwrap();
    assert_eq!((r.peripheral(), r.name()), ("GPIOG", "CRH"));
    assert_eq!(r.field_at(0).name(), "CNF8");
    assert_eq!(r.field_at(7).name(), "CNF15");
    assert_eq!(r.field_at(8).name(), "MODE8");
    assert_eq!(r.field_at(15).name(), "MODE15");
    let f4 = claim(Variant::Stm32f429, Port::J);
    let r = f4.register(Reg::Bussmenr).unwrap();
    assert_eq!((r.name(), r.field_at(0).name()), ("AHB1LPENR", "GPIOJLPEN"));
    let r = f4.register(Reg::Busrstr).unwrap();
    assert_eq!((r.name(), r.field_at(0).name()), ("AHB1RSTR", "GPIOJRST"));
    let l4 = claim(Variant::Stm32l4s9, Port::I);
    let r = l4.register(Reg::Bussmenr).unwrap();
    assert_eq!((r.name(), r.field_at(0).name()), ("AHB2SMENR", "GPIOISMEN"));
    let r = l4.register(Reg::Busenr).unwrap();
    assert_eq!((r.name(), r.field_at(0).name()), ("AHB2ENR", "GPIOIEN"));
    let r = l4.register(Reg::Lckr).unwrap();
    assert_eq!(r.field_count(), 17);
    assert_eq!(r.field_at(16).name(), "LCKK");
    assert_eq!(r.field_at(16).slot().bit_offset, 16);
    assert_eq!(r.field_at(15).name(), "LCK15");
}

#[test]
fn the_slots_of_the_schema() {
    let rw = Access::ReadWrite;
    assert_eq!(
        slot(Reg::Moder, 5, 0),
        Slot { stem: Stem::Moder, pin: Some(5), bit_offset: 10, bit_width: 2, access: rw, band: Band::Bits }
    );
    assert_eq!(
        slot(Reg::Afrh, 3, 0),
        Slot { stem: Stem::Afrh, pin: Some(11), bit_offset: 12, bit_width: 4, access: rw, band: Band::Bits }
    );
    assert_eq!(
        slot(Reg::Afrl, 7, 0),
        Slot { stem: Stem::Afrl, pin: Some(7), bit_offset: 28, bit_width: 4, access: rw, band: Band::Bits }
    );
    assert_eq!(
        slot(Reg::Bsrr, 3, 0),
        Slot {
            stem: Stem::Br,
            pin: Some(3),
            bit_offset: 19,
            bit_width: 1,
            access: Access::WriteOnly,
            band: Band::Bit
        }
    );
    assert_eq!(
        slot(Reg::Bsrr, 19, 0),
        Slot {
            stem: Stem::Bs,
            pin: Some(3),
            bit_offset: 3,
            bit_width: 1,
            access: Access::WriteOnly,
            band: Band::Bit
        }
    );
    assert_eq!(
        slot(Reg::Crl, 2, 0),
        Slot { stem: Stem::Cnf, pin: Some(2), bit_offset: 10, bit_width: 2, access: rw, band: Band::Bits }
    );
    assert_eq!(
        slot(Reg::Crl, 10, 0),
        Slot { stem: Stem::Mode, pin: Some(2), bit_offset: 8, bit_width: 2, access: rw, band: Band::Bits }
    );
    assert_eq!(
        slot(Reg::Crh, 15, 0),
        Slot { stem: Stem::Mode, pin: Some(15), bit_offset: 28, bit_width: 2, access: rw, band: Band::Bits }
    );
    assert_eq!(
        slot(Reg::Idr, 9, 0),
        Slot {
            stem: Stem::Idr,
            pin: Some(9),
            bit_offset: 9,
            bit_width: 1,
            access: Access::ReadOnly,
            band: Band::Bit
        }
    );
    assert_eq!(
        slot(Reg::Busenr, 0, 7),
        Slot { stem: Stem::Gpioen, pin: None, bit_offset: 7, bit_width: 1, access: rw, band: Band::BitBand }
    );
}

#[test]
fn the_fields_of_every_register_keep_apart() {
    for i in 0..REG_COUNT {
        let reg = Reg::from_index(i).unwrap();
        let mut used: u32 = 0;
        for k in 0..reg.field_count() {
            let s = slot(reg, k, 4);
            let m = mask(s.bit_offset, s.bit_width);
            assert_eq!(used & m, 0);
            used |= m;
            assert_eq!(s.access, if reg == Reg::Idr { Access::ReadOnly } else { reg.access() });
        }
    }
    assert!(Reg::from_index(REG_COUNT).is_none());
}

#[test]
fn field_names_are_stem_and_pin() {
    let s = slot(Reg::Ospeedr, 12, 0);
    assert_eq!(field_name(s, Family::F4, Port::A), "OSPEEDR12");
    assert_eq!(field_name(slot(Reg::Otyper, 0, 0), Family::L4, Port::B), "OT0");
    assert_eq!(field_name(slot(Reg::Ascr, 15, 0), Family::L4, Port::B), "ASC15");
    assert_eq!(field_name(slot(Reg::Busenr, 0, 3), Family::F1, Port::B), "IOPBEN");
    assert_eq!(pin_digits(0), "0");
    assert_eq!(pin_digits(9), "9");
    assert_eq!(pin_digits(10), "10");
    assert_eq!(pin_digits(15), "15");
}

#[test]
fn reading_and_writing_a_field() {
    assert_eq!(mask(0, 32), 0xFFFF_FFFF);
    assert_eq!(mask(4, 4), 0x0000_00F0);
    assert_eq!(mask(31, 1), 0x8000_0000);
    assert_eq!(mask(0, 1), 1);
    assert_eq!(extract(4, 4, 0x0000_00A5), 0xA);
    assert_eq!(extract(0, 32, 0xDEAD_BEEF), 0xDEAD_BEEF);
    assert_eq!(insert(4, 4, 0xFFFF_FFFF, 0x0), 0xFFFF_FF0F);
    assert_eq!(insert(4, 4, 0x0000_0000, 0xFF), 0x0000_00F0);
    assert_eq!(insert(0, 32, 0x1234_5678, 0x9ABC_DEF0), 0x9ABC_DEF0);
    assert_eq!(insert(30, 2, 0, 3), 0xC000_0000);
    let set = claim(Variant::Stm32f401, Port::A);
    let moder = set.register(Reg::Moder).unwrap();
    let m3 = moder.field_at(3);
    let m4 = moder.field_at(4);
    let w = m3.write(0, 0b10);
    assert_eq!(w, 0b10 << 6);
    assert_eq!(m3.read(w), 0b10);
    assert_eq!(m4.read(w), 0);
    let w = m4.write(w, 0b111);
    assert_eq!(m4.read(w), 0b11);
    assert_eq!(m3.read(w), 0b10);
}

fn gpio_f4(name: &str, base: u32, moder_pins: u32) -> Peripheral {
    let mut p = Peripheral::new(name, base);
    let layout: [(&str, u32, &str, u32, u32, u32, u32); 9] = [
        ("MODER", 0x00, "MODER", 16, 0, 2, 2),
        ("OTYPER", 0x04, "OT", 16, 0, 1, 1),
        ("OSPEEDR", 0x08, "OSPEEDR", 16, 0, 2, 2),
        ("PUPDR", 0x0C, "PUPDR", 16, 0, 2, 2),
        ("IDR", 0x10, "IDR", 16, 0, 1, 1),
        ("ODR", 0x14, "ODR", 16, 0, 1, 1),
        ("LCKR", 0x1C, "LCK", 16, 0, 1, 1),
        ("AFRL", 0x20, "AFRL", 8, 0, 4, 4),
        ("AFRH", 0x24, "AFRH", 8, 8, 4, 4),
    ];
    for (reg, offset, stem, count, first, stride, width) in layout {
        let mut r = Register::new(reg, offset, 32, Access::ReadWrite, false).unwrap();
        let count = if reg == "MODER" { moder_pins } else { count };
        for k in 0..count {
            let f = Field::new(&format!("{}{}", stem, first + k), stride * k, width, Access::ReadWrite);
            r.add_field(f.unwrap()).unwrap();
        }
        if reg == "LCKR" {
            r.add_field(Field::new("LCKK", 16, 1, Access::ReadWrite).unwrap()).unwrap();
        }
        p.add_register(r).unwrap();
    }
    let mut bsrr = Register::new("BSRR", 0x18, 32, Access::WriteOnly, false).unwrap();
    for k in 0..16 {
        bsrr.add_field(Field::new(&format!("BS{}", k), k, 1, Access::WriteOnly).unwrap()).unwrap();
        bsrr.add_field(Field::new(&format!("BR{}", k), 16 + k, 1, Access::WriteOnly).unwrap())
            .unwrap();
    }
    p.add_register(bsrr).unwrap();
    p
}

fn rcc_f4(enable_bits: &[(&str, u32)]) -> Peripheral {
    let mut rcc = Peripheral::new("RCC", 0x4002_3800);
    for (name, offset, suffix) in
        [("AHB1RSTR", 0x10, "RST"), ("AHB1ENR", 0x30, "EN"), ("AHB1LPENR", 0x50, "LPEN")]
    {
        let mut r = Register::new(name, offset, 32, Access::ReadWrite, false).unwrap();
        for (port, bit) in enable_bits {
            let f = Field::new(&format!("GPIO{}{}", port, suffix), *bit, 1, Access::ReadWrite);
            r.add_field(f.unwrap()).unwrap();
        }
        r.add_field(Field::new("CRC", 12, 1, Access::ReadWrite).unwrap()).unwrap();
        p_add(&mut rcc, r);
    }
    rcc
}

fn p_add(p: &mut Peripheral, r: Register) {
    p.add_register(r).unwrap();
}

#[test]
fn a_description_that_agrees_with_the_schema() {
    let mut dev = Device::new("STM32F401");
    dev.add_peripheral(gpio_f4("GPIOA", 0x4002_0000, 16)).unwrap();
    dev.add_peripheral(gpio_f4("GPIOB", 0x4002_0400, 15)).unwrap();
    dev.add_peripheral(rcc_f4(&[("A", 0), ("B", 1), ("C", 3)])).unwrap();
    let a = claim(Variant::Stm32f401, Port::A);
    assert!(agrees(&a, &dev));
    let b = claim(Variant::Stm32f401, Port::B);
    assert!(!agrees(&b, &dev));
    let c = claim(Variant::Stm32f401, Port::C);
    assert!(!agrees(&c, &dev));
    let moder_a = dev.peripheral("GPIOA").unwrap().register("MODER").unwrap();
    let moder_b = dev.peripheral("GPIOB").unwrap().register("MODER").unwrap();
    let token = b.register(Reg::Moder).unwrap();
    assert!(check_fields(token, moder_a));
    assert!(!check_fields(token, moder_b));
    assert!(check_field(token.field_at(14), moder_b));
    assert!(!check_field(token.field_at(15), moder_b));
    assert!(check_register(b.register(Reg::Busenr).unwrap(), &dev));
    assert!(!check_register(c.register(Reg::Busenr).unwrap(), &dev));
    assert!(!check_register(c.register(Reg::Odr).unwrap(), &dev));
    let l4 = claim(Variant::Stm32l4x5, Port::A);
    assert!(check_register(l4.register(Reg::Ascr).unwrap(), &dev));
    assert!(!check_register(l4.register(Reg::Busenr).unwrap(), &dev));
}

#[test]
fn a_field_that_the_schema_lacks_is_a_disagreement() {
    let mut dev = Device::new("STM32F401");
    let mut gpioa = gpio_f4("GPIOA", 0x4002_0000, 16);
    gpioa.add_field("IDR", Field::new("EXTRA", 16, 1, Access::ReadOnly).unwrap()).unwrap();
    dev.add_peripheral(gpioa).unwrap();
    dev.add_peripheral(rcc_f4(&[("A", 0)])).unwrap();
    let a = claim(Variant::Stm32f401, Port::A);
    assert!(!agrees(&a, &dev));
    let idr = dev.peripheral("GPIOA").unwrap().register("IDR").unwrap();
    assert!(!check_fields(a.register(Reg::Idr).unwrap(), idr));
    assert!(holds_token(a.register(Reg::Idr).unwrap(), "IDR7"));
    assert!(!holds_token(a.register(Reg::Idr).unwrap(), "EXTRA"));
    assert!(check_register(a.register(Reg::Odr).unwrap(), &dev));
    assert!(check_register(a.register(Reg::Busenr).unwrap(), &dev));
}

#[test]
fn a_field_at_other_bits_is_a_disagreement() {
    let mut dev = Device::new("STM32F401");
    let mut gpioa = gpio_f4("GPIOA", 0x4002_0000, 16);
    gpioa.resize_field("AFRH", "AFRH15", 3).unwrap();
    gpioa.reposition_field("LCKR", "LCKK", 31).unwrap();
    dev.add_peripheral(gpioa).unwrap();
    dev.add_peripheral(rcc_f4(&[("A", 1)])).unwrap();
    let a = claim(Variant::Stm32f401, Port::A);
    assert!(!check_register(a.register(Reg::Afrh).unwrap(), &dev));
    assert!(!check_register(a.register(Reg::Lckr).unwrap(), &dev));
    assert!(!check_register(a.register(Reg::Busenr).unwrap(), &dev));
    assert!(check_register(a.register(Reg::Afrl).unwrap(), &dev));
}
