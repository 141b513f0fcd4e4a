//! What is emitted from a corrected device: the definitions of its registers
//! and fields, the index of its registers by peripheral, and the definitions
//! of its interrupts. The core peripherals of the architecture are described
//! elsewhere and never emitted.

use vstd::prelude::*;
use vstd::arithmetic::div_mod::lemma_add_mod_noop_right;
use crate::device::{Device, DeviceView};
use crate::field::{Access, Band, Field, FieldView};
use crate::peripheral::{InterruptView, Peripheral, PeripheralView};
use crate::register::{Register, RegisterView};
use crate::text::str_eq;

verus! {

/// The first address of the bit-band region of the peripherals.
pub const BIT_BAND_START: u64 = 0x4000_0000;

/// One past the last address of the bit-band region of the peripherals.
pub const BIT_BAND_END: u64 = 0x4010_0000;

/// Whether the peripheral called `name` is one of the core peripherals that
/// are never emitted.
pub open spec fn excluded(name: Seq<char>) -> bool {
    name == "FPU"@ || name == "FPU_CPACR"@ || name == "ITM"@ || name == "MPU"@ || name == "NVIC"@
        || name == "SCB"@ || name == "STK"@ || name == "TPIU"@
}

/// Whether the peripheral called `name` is never emitted.
pub fn is_excluded(name: &str) -> (r: bool)
    ensures
        r == excluded(name@),
{
    str_eq(name, "FPU") || str_eq(name, "FPU_CPACR") || str_eq(name, "ITM") || str_eq(name, "MPU")
        || str_eq(name, "NVIC") || str_eq(name, "SCB") || str_eq(name, "STK") || str_eq(
        name,
        "TPIU",
    )
}

/// The names of the core peripherals that are never emitted.
pub fn exclusion_set() -> (r: Vec<&'static str>)
    ensures
        forall|name: Seq<char>|
            excluded(name) <==> exists|i: int| 0 <= i < r@.len() && (#[trigger] r@[i])@ == name,
{
    let r = vec!["FPU", "FPU_CPACR", "ITM", "MPU", "NVIC", "SCB", "STK", "TPIU"];
    assert forall|name: Seq<char>| excluded(name) implies exists|i: int|
        0 <= i < r@.len() && (#[trigger] r@[i])@ == name by {
        if name == "FPU"@ {
            assert(r@[0]@ == name);
        } else if name == "FPU_CPACR"@ {
            assert(r@[1]@ == name);
        } else if name == "ITM"@ {
            assert(r@[2]@ == name);
        } else if name == "MPU"@ {
            assert(r@[3]@ == name);
        } else if name == "NVIC"@ {
            assert(r@[4]@ == name);
        } else if name == "SCB"@ {
            assert(r@[5]@ == name);
        } else if name == "STK"@ {
            assert(r@[6]@ == name);
        } else {
            assert(r@[7]@ == name);
        }
    }
    r
}

/// Whether a register at `address` lies in the bit-band region.
pub open spec fn in_bit_band(address: nat) -> bool {
    BIT_BAND_START <= address < BIT_BAND_END
}

/// The definition of a field.
#[derive(Clone, Debug, PartialEq, Eq)]
pub struct FieldDef {
    pub name: String,
    pub bit_offset: u32,
    pub bit_width: u32,
    pub access: Access,
    pub band: Band,
}

/// What the definition of a field says.
pub struct FieldDefView {
    pub name: Seq<char>,
    pub bit_offset: nat,
    pub bit_width: nat,
    pub access: Access,
    pub band: Band,
}

impl View for FieldDef {
    type V = FieldDefView;

    open spec fn view(&self) -> FieldDefView {
        FieldDefView {
            name: self.name@,
            bit_offset: self.bit_offset as nat,
            bit_width: self.bit_width as nat,
            access: self.access,
            band: self.band,
        }
    }
}

impl FieldDefView {
    /// Whether the two definitions share a bit.
    pub open spec fn overlaps(self, other: FieldDefView) -> bool {
        self.bit_offset < other.bit_offset + other.bit_width && other.bit_offset < self.bit_offset
            + self.bit_width
    }
}

/// The definition of a register, with those of its fields in ascending bit
/// order.
#[derive(Clone, Debug, PartialEq, Eq)]
pub struct RegisterDef {
    pub peripheral: String,
    pub base_address: u32,
    pub name: String,
    pub address: u64,
    pub size: u32,
    pub access: Access,
    pub alias: bool,
    pub bit_band: bool,
    pub fields: Vec<FieldDef>,
}

/// What the definition of a register says.
pub struct RegisterDefView {
    pub peripheral: Seq<char>,
    pub base_address: nat,
    pub name: Seq<char>,
    pub address: nat,
    pub size: nat,
    pub access: Access,
    pub alias: bool,
    pub bit_band: bool,
    pub fields: Seq<FieldDefView>,
}

impl View for RegisterDef {
    type V = RegisterDefView;

    open spec fn view(&self) -> RegisterDefView {
        RegisterDefView {
            peripheral: self.peripheral@,
            base_address: self.base_address as nat,
            name: self.name@,
            address: self.address as nat,
            size: self.size as nat,
            access: self.access,
            alias: self.alias,
            bit_band: self.bit_band,
            fields: self.fields@.map_values(|f: FieldDef| f@),
        }
    }
}

impl RegisterDefView {
    /// The fields are pairwise disjoint, and each lies within the register.
    pub open spec fn fields_apart(self) -> bool {
        &&& forall|i: int|
            0 <= i < self.fields.len() ==> 1 <= (#[trigger] self.fields[i]).bit_width
                && self.fields[i].bit_offset + self.fields[i].bit_width <= self.size
        &&& forall|i: int, j: int|
            0 <= i < self.fields.len() && 0 <= j < self.fields.len() && i != j ==> !(
            #[trigger] self.fields[i]).overlaps(#[trigger] self.fields[j])
    }

    /// The fields stand in ascending bit order.
    pub open spec fn fields_ascend(self) -> bool {
        forall|i: int, j: int|
            0 <= i < j < self.fields.len() ==> (#[trigger] self.fields[i]).bit_offset < (
            #[trigger] self.fields[j]).bit_offset
    }

    /// Whether `self` may stand before `other`: the peripheral with the
    /// lower base address comes first, and of one peripheral the register
    /// with the lower address.
    pub open spec fn precedes(self, other: RegisterDefView) -> bool {
        self.base_address < other.base_address || (self.base_address == other.base_address
            && self.address <= other.address)
    }
}

/// The definitions stand in ascending order of their addresses, peripheral
/// by peripheral.
pub open spec fn ascending(defs: Seq<RegisterDefView>) -> bool {
    forall|i: int, j: int|
        0 <= i < j < defs.len() ==> (#[trigger] defs[i]).precedes(#[trigger] defs[j])
}

/// What a list of register definitions says.
pub open spec fn defs_view(defs: Seq<RegisterDef>) -> Seq<RegisterDefView> {
    defs.map_values(|d: RegisterDef| d@)
}

/// The definition of the field `f` of a register that is or is not in the
/// bit-band region.
pub open spec fn field_def(f: FieldView, bit_band: bool) -> FieldDefView {
    FieldDefView {
        name: f.name,
        bit_offset: f.bit_offset,
        bit_width: f.bit_width,
        access: f.access,
        band: f.band(bit_band),
    }
}

/// The definition of the register `r` of the peripheral `p`.
pub open spec fn register_def(p: PeripheralView, r: RegisterView) -> RegisterDefView {
    let address = p.base_address + r.offset;
    RegisterDefView {
        peripheral: p.name,
        base_address: p.base_address,
        name: r.name,
        address,
        size: r.width,
        access: r.access,
        alias: r.alias,
        bit_band: in_bit_band(address),
        fields: r.fields.map_values(|f: FieldView| field_def(f, in_bit_band(address))),
    }
}

/// The definitions of the first `n` registers of `p`.
pub open spec fn peripheral_defs(p: PeripheralView, n: int) -> Seq<RegisterDefView> {
    Seq::new(n as nat, |i: int| register_def(p, p.registers[i]))
}

/// The definitions of the registers of the first `n` peripherals of `dev`,
/// the excluded ones left out.
pub open spec fn defs_upto(dev: DeviceView, n: int) -> Seq<RegisterDefView>
    decreases n,
{
    if n <= 0 {
        Seq::empty()
    } else {
        let p = dev.peripherals[n - 1];
        if excluded(p.name) {
            defs_upto(dev, n - 1)
        } else {
            defs_upto(dev, n - 1) + peripheral_defs(p, p.registers.len() as int)
        }
    }
}

/// Every register definition of `dev`: by ascending base address of the
/// peripherals, then by ascending offset of the registers.
pub open spec fn all_defs(dev: DeviceView) -> Seq<RegisterDefView> {
    defs_upto(dev, dev.peripherals.len() as int)
}

/// Whether the definition at position `k` of all belongs to the pool
/// `pool_number` of `pool_size` pools: the definitions are dealt out in
/// turn, the first to pool 2 (to pool 1 where there is one pool only).
pub open spec fn in_pool(k: int, pool_number: int, pool_size: int) -> bool {
    (k + 1) % pool_size + 1 == pool_number
}

/// The definitions among the first `n` of `defs` that belong to the pool.
pub open spec fn pool_upto(defs: Seq<RegisterDefView>, n: int, pool_number: int, pool_size: int) -> Seq<
    RegisterDefView,
>
    decreases n,
{
    if n <= 0 {
        Seq::empty()
    } else if in_pool(n - 1, pool_number, pool_size) {
        pool_upto(defs, n - 1, pool_number, pool_size).push(defs[n - 1])
    } else {
        pool_upto(defs, n - 1, pool_number, pool_size)
    }
}

/// The definitions of `defs` that belong to the pool, in their order.
pub open spec fn pool(defs: Seq<RegisterDefView>, pool_number: int, pool_size: int) -> Seq<
    RegisterDefView,
> {
    pool_upto(defs, defs.len() as int, pool_number, pool_size)
}

/// Whether `d` is the definition of a register of a peripheral of `dev` that
/// is not excluded.
pub open spec fn emitted_from(dev: DeviceView, d: RegisterDefView) -> bool {
    exists|i: int, j: int|
        0 <= i < dev.peripherals.len() && 0 <= j < dev.peripherals[i].registers.len() && !excluded(
            dev.peripherals[i].name,
        ) && d == #[trigger] register_def(dev.peripherals[i], dev.peripherals[i].registers[j])
}

/// Every definition belongs to one pool and to one only, and that pool is
/// one of the pools 1 to `pool_size`.
pub proof fn lemma_one_pool(k: int, pool_size: int)
    requires
        0 <= k,
        0 < pool_size,
    ensures
        1 <= (k + 1) % pool_size + 1 <= pool_size,
        in_pool(k, (k + 1) % pool_size + 1, pool_size),
        forall|n: int| in_pool(k, n, pool_size) ==> n == (k + 1) % pool_size + 1,
{
}

/// What is generated depends on the device and the pool alone: two runs on
/// one device give the same definitions, the same index and the same
/// interrupts.
pub proof fn lemma_generation_repeats(
    dev: DeviceView,
    pool_number: int,
    pool_size: int,
    first: Seq<RegisterDef>,
    second: Seq<RegisterDef>,
    first_rest: Rest,
    second_rest: Rest,
)
    requires
        defs_view(first) == pool(all_defs(dev), pool_number, pool_size),
        defs_view(second) == pool(all_defs(dev), pool_number, pool_size),
        index_view(first_rest.index@) == index_of(dev),
        index_view(second_rest.index@) == index_of(dev),
        interrupts_view(first_rest.interrupts@) == all_interrupts(dev),
        interrupts_view(second_rest.interrupts@) == all_interrupts(dev),
    ensures
        defs_view(first) == defs_view(second),
        index_view(first_rest.index@) == index_view(second_rest.index@),
        interrupts_view(first_rest.interrupts@) == interrupts_view(second_rest.interrupts@),
{
}

/// The definitions of the first `n` peripherals are those of registers of
/// these peripherals.
proof fn lemma_defs_bases(dev: DeviceView, n: int, k: int)
    requires
        0 <= n <= dev.peripherals.len(),
        0 <= k < defs_upto(dev, n).len(),
    ensures
        exists|i: int|
            0 <= i < n && defs_upto(dev, n)[k].base_address == (
            #[trigger] dev.peripherals[i]).base_address,
    decreases n,
{
    let p = dev.peripherals[n - 1];
    if excluded(p.name) || k < defs_upto(dev, n - 1).len() {
        lemma_defs_bases(dev, n - 1, k);
    } else {
        assert(defs_upto(dev, n)[k].base_address == dev.peripherals[n - 1].base_address);
    }
}

/// The definitions of a well-formed device stand in ascending order.
pub proof fn lemma_defs_ascending(dev: DeviceView, n: int)
    requires
        dev.wf(),
        0 <= n <= dev.peripherals.len(),
    ensures
        ascending(defs_upto(dev, n)),
    decreases n,
{
    if n > 0 {
        lemma_defs_ascending(dev, n - 1);
        let p = dev.peripherals[n - 1];
        let earlier = defs_upto(dev, n - 1);
        let defs = defs_upto(dev, n);
        if !excluded(p.name) {
            assert(p.wf());
            assert forall|i: int, j: int| 0 <= i < j < defs.len() implies (
            #[trigger] defs[i]).precedes(#[trigger] defs[j]) by {
                if j < earlier.len() {
                    assert(earlier[i].precedes(earlier[j]));
                } else if i < earlier.len() {
                    lemma_defs_bases(dev, n - 1, i);
                    let m = choose|m: int|
                        0 <= m < n - 1 && earlier[i].base_address == (
                        #[trigger] dev.peripherals[m]).base_address;
                    assert(dev.peripherals[m].base_address < dev.peripherals[n - 1].base_address);
                } else {
                    let a = i - earlier.len();
                    let b = j - earlier.len();
                    assert(p.registers[a].offset <= p.registers[b].offset);
                }
            }
        }
    }
}

/// What the pool takes from the first `n` definitions is among them.
proof fn lemma_pool_members(
    defs: Seq<RegisterDefView>,
    n: int,
    pool_number: int,
    pool_size: int,
    k: int,
)
    requires
        0 <= n <= defs.len(),
        0 <= k < pool_upto(defs, n, pool_number, pool_size).len(),
    ensures
        exists|i: int| 0 <= i < n && pool_upto(defs, n, pool_number, pool_size)[k] == #[trigger] defs[i],
    decreases n,
{
    let earlier = pool_upto(defs, n - 1, pool_number, pool_size);
    if k < earlier.len() {
        lemma_pool_members(defs, n - 1, pool_number, pool_size, k);
    } else {
        assert(pool_upto(defs, n, pool_number, pool_size)[k] == defs[n - 1]);
    }
}

/// A pool keeps the definitions in their order.
pub proof fn lemma_pool_ascending(defs: Seq<RegisterDefView>, n: int, pool_number: int, pool_size: int)
    requires
        ascending(defs),
        0 <= n <= defs.len(),
    ensures
        ascending(pool_upto(defs, n, pool_number, pool_size)),
    decreases n,
{
    if n > 0 {
        lemma_pool_ascending(defs, n - 1, pool_number, pool_size);
        let earlier = pool_upto(defs, n - 1, pool_number, pool_size);
        let taken = pool_upto(defs, n, pool_number, pool_size);
        assert forall|i: int, j: int| 0 <= i < j < taken.len() implies (#[trigger] taken[i]).precedes(
            #[trigger] taken[j],
        ) by {
            if j < earlier.len() {
                assert(earlier[i].precedes(earlier[j]));
            } else {
                lemma_pool_members(defs, n - 1, pool_number, pool_size, i);
                let m = choose|m: int| 0 <= m < n - 1 && earlier[i] == #[trigger] defs[m];
                assert(defs[m].precedes(defs[n - 1]));
            }
        }
    }
}

/// The pool's choice among the first `n` definitions depends on these only.
proof fn lemma_pool_prefix(
    a: Seq<RegisterDefView>,
    b: Seq<RegisterDefView>,
    n: int,
    pool_number: int,
    pool_size: int,
)
    requires
        n <= a.len(),
        n <= b.len(),
        forall|i: int| 0 <= i < n ==> a[i] == b[i],
    ensures
        pool_upto(a, n, pool_number, pool_size) == pool_upto(b, n, pool_number, pool_size),
    decreases n,
{
    if n > 0 {
        lemma_pool_prefix(a, b, n - 1, pool_number, pool_size);
    }
}

/// Every definition of a well-formed device keeps its fields apart, within
/// the register and in ascending bit order.
pub proof fn lemma_emitted_fields_apart(dev: DeviceView, d: RegisterDefView)
    requires
        dev.wf(),
        emitted_from(dev, d),
    ensures
        d.fields_apart(),
        d.fields_ascend(),
{
    let (i, j) = choose|i: int, j: int|
        0 <= i < dev.peripherals.len() && 0 <= j < dev.peripherals[i].registers.len() && !excluded(
            dev.peripherals[i].name,
        ) && d == #[trigger] register_def(dev.peripherals[i], dev.peripherals[i].registers[j]);
    let p = dev.peripherals[i];
    let r = p.registers[j];
    assert(p.wf());
    assert(r.wf());
    r.lemma_fields_disjoint();
    assert forall|a: int| 0 <= a < d.fields.len() implies 1 <= (#[trigger] d.fields[a]).bit_width
        && d.fields[a].bit_offset + d.fields[a].bit_width <= d.size by {
        assert(r.fields[a].wf());
    }
    assert forall|a: int, b: int|
        0 <= a < d.fields.len() && 0 <= b < d.fields.len() && a != b implies !(
    #[trigger] d.fields[a]).overlaps(#[trigger] d.fields[b]) by {
        assert(!r.fields[a].overlaps(r.fields[b]));
    }
    assert forall|a: int, b: int| 0 <= a < b < d.fields.len() implies (
    #[trigger] d.fields[a]).bit_offset < (#[trigger] d.fields[b]).bit_offset by {
        assert(r.fields[a].end() <= r.fields[b].bit_offset);
        assert(r.fields[a].wf());
    }
}

/// No definition is that of a register of an excluded peripheral.
pub proof fn lemma_emitted_not_excluded(dev: DeviceView, d: RegisterDefView)
    requires
        emitted_from(dev, d),
    ensures
        !excluded(d.peripheral),
{
}

/// Two definitions of differently named registers of one peripheral of a
/// well-formed device have the same address only if both registers are
/// declared aliases.
pub proof fn lemma_emitted_unique_addressing(dev: DeviceView, a: RegisterDefView, b: RegisterDefView)
    requires
        dev.wf(),
        emitted_from(dev, a),
        emitted_from(dev, b),
        a.peripheral == b.peripheral,
        a.name != b.name,
        a.address == b.address,
    ensures
        a.alias && b.alias,
{
    let (i, j) = choose|i: int, j: int|
        0 <= i < dev.peripherals.len() && 0 <= j < dev.peripherals[i].registers.len() && !excluded(
            dev.peripherals[i].name,
        ) && a == #[trigger] register_def(dev.peripherals[i], dev.peripherals[i].registers[j]);
    let (k, l) = choose|k: int, l: int|
        0 <= k < dev.peripherals.len() && 0 <= l < dev.peripherals[k].registers.len() && !excluded(
            dev.peripherals[k].name,
        ) && b == #[trigger] register_def(dev.peripherals[k], dev.peripherals[k].registers[l]);
    dev.lemma_peripheral_index(a.peripheral, i);
    dev.lemma_peripheral_index(b.peripheral, k);
    assert(i == k);
    let p = dev.peripherals[i];
    assert(p.wf());
    assert(j != l);
    assert(p.registers[j].wf() && p.registers[l].wf());
    assert(p.registers[j].offset == p.registers[l].offset);
    if j < l {
        assert(p.registers[j].compatible(p.registers[l]));
    } else {
        assert(p.registers[l].compatible(p.registers[j]));
    }
}

/// The definition of a field.
fn field_def_of(f: &Field, bit_band: bool) -> (d: FieldDef)
    ensures
        d@ == field_def(f@, bit_band),
{
    FieldDef {
        name: f.name().to_owned(),
        bit_offset: f.bit_offset(),
        bit_width: f.bit_width(),
        access: f.access(),
        band: f.band(bit_band),
    }
}

/// The definition of the register `r` of the peripheral `p`.
pub fn register_def_of(p: &Peripheral, r: &Register) -> (d: RegisterDef)
    ensures
        d@ == register_def(p@, r@),
{
    let address: u64 = p.base_address() as u64 + r.offset() as u64;
    let bit_band = BIT_BAND_START <= address && address < BIT_BAND_END;
    let mut fields: Vec<FieldDef> = Vec::new();
    let mut i: usize = 0;
    while i < r.field_count()
        invariant
            i <= r@.fields.len(),
            fields@.len() == i,
            forall|k: int| 0 <= k < i ==> (#[trigger] fields@[k])@ == field_def(r@.fields[k], bit_band),
        decreases r@.fields.len() - i,
    {
        fields.push(field_def_of(r.field_at(i), bit_band));
        i += 1;
    }
    let d = RegisterDef {
        peripheral: p.name().to_owned(),
        base_address: p.base_address(),
        name: r.name().to_owned(),
        address,
        size: r.width(),
        access: r.access(),
        alias: r.is_alias(),
        bit_band,
        fields,
    };
    assert(d@.fields =~= register_def(p@, r@).fields);
    d
}

/// The definitions of the registers and fields of `dev` that belong to the
/// pool `pool_number` of `pool_size` pools. Each register of a peripheral
/// that is not excluded is defined in exactly one of the pools 1 to
/// `pool_size`.
pub fn generate_regs(dev: &Device, pool_number: usize, pool_size: usize) -> (out: Vec<RegisterDef>)
    requires
        pool_size > 0,
    ensures
        defs_view(out@) == pool(all_defs(dev@), pool_number as int, pool_size as int),
        ascending(defs_view(out@)),
        forall|k: int| 0 <= k < out@.len() ==> emitted_from(dev@, #[trigger] out@[k]@),
        forall|k: int|
            0 <= k < out@.len() ==> (#[trigger] out@[k])@.fields_apart() && out@[k]@.fields_ascend()
                && !excluded(out@[k]@.peripheral),
        forall|a: int, b: int|
            0 <= a < out@.len() && 0 <= b < out@.len() && (#[trigger] out@[a])@.peripheral == (
            #[trigger] out@[b])@.peripheral && out@[a]@.name != out@[b]@.name && out@[a]@.address
                == out@[b]@.address ==> out@[a]@.alias && out@[b]@.alias,
{
    dev.validity();
    let mut out: Vec<RegisterDef> = Vec::new();
    let mut phase: usize = 0;
    let ghost mut seen: Seq<RegisterDefView> = Seq::empty();
    let mut i: usize = 0;
    assert(defs_view(out@) =~= Seq::<RegisterDefView>::empty());
    while i < dev.peripheral_count()
        invariant
            pool_size > 0,
            i <= dev@.peripherals.len(),
            seen == defs_upto(dev@, i as int),
            phase == seen.len() % (pool_size as nat),
            defs_view(out@) == pool(seen, pool_number as int, pool_size as int),
            forall|k: int| 0 <= k < out@.len() ==> emitted_from(dev@, #[trigger] out@[k]@),
        decreases dev@.peripherals.len() - i,
    {
        let p = dev.peripheral_at(i);
        if !is_excluded(p.name()) {
            let ghost base = seen;
            let mut j: usize = 0;
            assert(base + peripheral_defs(p@, 0) =~= base);
            while j < p.register_count()
                invariant
                    pool_size > 0,
                    i < dev@.peripherals.len(),
                    p@ == dev@.peripherals[i as int],
                    !excluded(p@.name),
                    j <= p@.registers.len(),
                    seen == base + peripheral_defs(p@, j as int),
                    phase == seen.len() % (pool_size as nat),
                    defs_view(out@) == pool(seen, pool_number as int, pool_size as int),
                    forall|k: int| 0 <= k < out@.len() ==> emitted_from(dev@, #[trigger] out@[k]@),
                decreases p@.registers.len() - j,
            {
                let ghost d = register_def(p@, p@.registers[j as int]);
                let ghost next = seen.push(d);
                proof {
                    lemma_add_mod_noop_right(1, seen.len() as int, pool_size as int);
                    lemma_pool_prefix(
                        seen,
                        next,
                        seen.len() as int,
                        pool_number as int,
                        pool_size as int,
                    );
                    assert(next =~= base + peripheral_defs(p@, j + 1));
                }
                phase = (phase + 1) % pool_size;
                if phase + 1 == pool_number {
                    let def = register_def_of(p, p.register_at(j));
                    let ghost before = out@;
                    out.push(def);
                    proof {
                        assert(defs_view(out@) =~= defs_view(before).push(d));
                        assert forall|k: int| 0 <= k < out@.len() implies emitted_from(
                            dev@,
                            #[trigger] out@[k]@,
                        ) by {
                            if k < before.len() {
                                assert(out@[k] == before[k]);
                            } else {
                                assert(d == register_def(
                                    dev@.peripherals[i as int],
                                    dev@.peripherals[i as int].registers[j as int],
                                ));
                            }
                        }
                    }
                }
                proof {
                    seen = next;
                }
                j += 1;
            }
        }
        i += 1;
    }
    proof {
        lemma_defs_ascending(dev@, dev@.peripherals.len() as int);
        lemma_pool_ascending(
            all_defs(dev@),
            all_defs(dev@).len() as int,
            pool_number as int,
            pool_size as int,
        );
        assert forall|k: int| 0 <= k < out@.len() implies (#[trigger] out@[k])@.fields_apart()
            && out@[k]@.fields_ascend() && !excluded(out@[k]@.peripheral) by {
            lemma_emitted_fields_apart(dev@, out@[k]@);
        }
        assert forall|a: int, b: int|
            0 <= a < out@.len() && 0 <= b < out@.len() && (#[trigger] out@[a])@.peripheral == (
            #[trigger] out@[b])@.peripheral && out@[a]@.name != out@[b]@.name && out@[a]@.address
                == out@[b]@.address implies out@[a]@.alias && out@[b]@.alias by {
            lemma_emitted_unique_addressing(dev@, out@[a]@, out@[b]@);
        }
    }
    out
}

/// The registers of one peripheral, by name: what a consumer asks for to have
/// every register of the peripheral as one unit.
#[derive(Clone, Debug, PartialEq, Eq)]
pub struct IndexEntry {
    pub peripheral: String,
    pub registers: Vec<String>,
}

/// What an entry of the index says.
pub struct IndexEntryView {
    pub peripheral: Seq<char>,
    pub registers: Seq<Seq<char>>,
}

impl View for IndexEntry {
    type V = IndexEntryView;

    open spec fn view(&self) -> IndexEntryView {
        IndexEntryView {
            peripheral: self.peripheral@,
            registers: self.registers@.map_values(|s: String| s@),
        }
    }
}

/// The definition of an interrupt.
#[derive(Clone, Debug, PartialEq, Eq)]
pub struct InterruptDef {
    pub name: String,
    pub number: u32,
    pub peripheral: String,
}

/// What the definition of an interrupt says.
pub struct InterruptDefView {
    pub name: Seq<char>,
    pub number: nat,
    pub peripheral: Seq<char>,
}

impl View for InterruptDef {
    type V = InterruptDefView;

    open spec fn view(&self) -> InterruptDefView {
        InterruptDefView {
            name: self.name@,
            number: self.number as nat,
            peripheral: self.peripheral@,
        }
    }
}

/// The index of the registers and the definitions of the interrupts.
#[derive(Clone, Debug, PartialEq, Eq)]
pub struct Rest {
    pub index: Vec<IndexEntry>,
    pub interrupts: Vec<InterruptDef>,
}

/// What an index says.
pub open spec fn index_view(index: Seq<IndexEntry>) -> Seq<IndexEntryView> {
    index.map_values(|e: IndexEntry| e@)
}

/// What a list of interrupt definitions says.
pub open spec fn interrupts_view(defs: Seq<InterruptDef>) -> Seq<InterruptDefView> {
    defs.map_values(|d: InterruptDef| d@)
}

/// The entry of the peripheral `p`: its registers by ascending offset.
pub open spec fn index_entry(p: PeripheralView) -> IndexEntryView {
    IndexEntryView {
        peripheral: p.name,
        registers: Seq::new(p.registers.len(), |i: int| p.registers[i].name),
    }
}

/// The entries of the first `n` peripherals of `dev`, the excluded ones left
/// out.
pub open spec fn index_upto(dev: DeviceView, n: int) -> Seq<IndexEntryView>
    decreases n,
{
    if n <= 0 {
        Seq::empty()
    } else {
        let p = dev.peripherals[n - 1];
        if excluded(p.name) {
            index_upto(dev, n - 1)
        } else {
            index_upto(dev, n - 1).push(index_entry(p))
        }
    }
}

/// The index of `dev`: one entry for each peripheral that is not excluded,
/// by ascending base address.
pub open spec fn index_of(dev: DeviceView) -> Seq<IndexEntryView> {
    index_upto(dev, dev.peripherals.len() as int)
}

/// Whether one of `defs` defines an interrupt called `name`.
pub open spec fn defines_interrupt(defs: Seq<InterruptDefView>, name: Seq<char>) -> bool {
    exists|k: int| 0 <= k < defs.len() && (#[trigger] defs[k]).name == name
}

/// The definition of the interrupt `interrupt` of the peripheral `p`.
pub open spec fn interrupt_def(p: PeripheralView, interrupt: InterruptView) -> InterruptDefView {
    InterruptDefView { name: interrupt.name, number: interrupt.number, peripheral: p.name }
}

/// `defs`, and behind them the definitions of the first `m` interrupts of
/// `p`, but of each name the first only.
pub open spec fn interrupts_within(defs: Seq<InterruptDefView>, p: PeripheralView, m: int) -> Seq<
    InterruptDefView,
>
    decreases m,
{
    if m <= 0 {
        defs
    } else {
        let before = interrupts_within(defs, p, m - 1);
        let interrupt = p.interrupts[m - 1];
        if defines_interrupt(before, interrupt.name) {
            before
        } else {
            before.push(interrupt_def(p, interrupt))
        }
    }
}

/// The definitions of the interrupts of the first `n` peripherals of `dev`,
/// the excluded peripherals left out, of each name the first only.
pub open spec fn interrupts_upto(dev: DeviceView, n: int) -> Seq<InterruptDefView>
    decreases n,
{
    if n <= 0 {
        Seq::empty()
    } else {
        let p = dev.peripherals[n - 1];
        if excluded(p.name) {
            interrupts_upto(dev, n - 1)
        } else {
            interrupts_within(interrupts_upto(dev, n - 1), p, p.interrupts.len() as int)
        }
    }
}

/// The definitions of the interrupts of `dev`.
pub open spec fn all_interrupts(dev: DeviceView) -> Seq<InterruptDefView> {
    interrupts_upto(dev, dev.peripherals.len() as int)
}

/// No name is defined twice.
pub open spec fn interrupt_names_differ(defs: Seq<InterruptDefView>) -> bool {
    forall|a: int, b: int|
        0 <= a < b < defs.len() ==> (#[trigger] defs[a]).name != (#[trigger] defs[b]).name
}

/// The entry of the peripheral `p`.
pub fn index_entry_of(p: &Peripheral) -> (e: IndexEntry)
    ensures
        e@ == index_entry(p@),
{
    let mut registers: Vec<String> = Vec::new();
    let mut j: usize = 0;
    while j < p.register_count()
        invariant
            j <= p@.registers.len(),
            registers@.len() == j,
            forall|k: int| 0 <= k < j ==> (#[trigger] registers@[k])@ == p@.registers[k].name,
        decreases p@.registers.len() - j,
    {
        registers.push(p.register_at(j).name().to_owned());
        j += 1;
    }
    let e = IndexEntry { peripheral: p.name().to_owned(), registers };
    assert(e@.registers =~= index_entry(p@).registers);
    e
}

/// Whether one of `defs` defines an interrupt called `name`.
fn defines(defs: &Vec<InterruptDef>, name: &str) -> (r: bool)
    ensures
        r == defines_interrupt(interrupts_view(defs@), name@),
{
    let mut k: usize = 0;
    while k < defs.len()
        invariant
            k <= defs@.len(),
            forall|m: int| 0 <= m < k ==> (#[trigger] interrupts_view(defs@)[m]).name != name@,
        decreases defs@.len() - k,
    {
        if str_eq(defs[k].name.as_str(), name) {
            assert(interrupts_view(defs@)[k as int].name == name@);
            return true;
        }
        k += 1;
    }
    false
}

/// The index of the registers of `dev` by peripheral, and the definitions of
/// its interrupts. Nothing of an excluded peripheral is in either.
pub fn generate_rest(dev: &Device) -> (out: Rest)
    ensures
        index_view(out.index@) == index_of(dev@),
        interrupts_view(out.interrupts@) == all_interrupts(dev@),
        forall|k: int| 0 <= k < out.index@.len() ==> !excluded((#[trigger] out.index@[k])@.peripheral),
        forall|k: int|
            0 <= k < out.interrupts@.len() ==> !excluded((#[trigger] out.interrupts@[k])@.peripheral),
        interrupt_names_differ(interrupts_view(out.interrupts@)),
{
    let mut index: Vec<IndexEntry> = Vec::new();
    let mut interrupts: Vec<InterruptDef> = Vec::new();
    let mut i: usize = 0;
    assert(index_view(index@) =~= Seq::<IndexEntryView>::empty());
    assert(interrupts_view(interrupts@) =~= Seq::<InterruptDefView>::empty());
    while i < dev.peripheral_count()
        invariant
            i <= dev@.peripherals.len(),
            index_view(index@) == index_upto(dev@, i as int),
            interrupts_view(interrupts@) == interrupts_upto(dev@, i as int),
            forall|k: int| 0 <= k < index@.len() ==> !excluded((#[trigger] index@[k])@.peripheral),
            forall|k: int|
                0 <= k < interrupts@.len() ==> !excluded((#[trigger] interrupts@[k])@.peripheral),
            interrupt_names_differ(interrupts_view(interrupts@)),
        decreases dev@.peripherals.len() - i,
    {
        let p = dev.peripheral_at(i);
        if !is_excluded(p.name()) {
            let ghost before = index@;
            index.push(index_entry_of(p));
            assert(index_view(index@) =~= index_view(before).push(index_entry(p@)));
            let ghost base = interrupts_view(interrupts@);
            let mut m: usize = 0;
            while m < p.interrupt_count()
                invariant
                    m <= p@.interrupts.len(),
                    !excluded(p@.name),
                    interrupts_view(interrupts@) == interrupts_within(base, p@, m as int),
                    forall|k: int|
                        0 <= k < interrupts@.len() ==> !excluded(
                            (#[trigger] interrupts@[k])@.peripheral,
                        ),
                    interrupt_names_differ(interrupts_view(interrupts@)),
                decreases p@.interrupts.len() - m,
            {
                let interrupt = p.interrupt_at(m);
                if !defines(&interrupts, interrupt.name()) {
                    let ghost earlier = interrupts@;
                    let def = InterruptDef {
                        name: interrupt.name().to_owned(),
                        number: interrupt.number(),
                        peripheral: p.name().to_owned(),
                    };
                    interrupts.push(def);
                    proof {
                        let now = interrupts_view(interrupts@);
                        assert(now =~= interrupts_view(earlier).push(
                            interrupt_def(p@, interrupt@),
                        ));
                        assert forall|a: int, b: int| 0 <= a < b < now.len() implies (
                        #[trigger] now[a]).name != (#[trigger] now[b]).name by {
                            if b == now.len() - 1 {
                                assert(interrupts_view(earlier)[a].name != interrupt@.name);
                            } else {
                                assert(interrupts_view(earlier)[a].name != interrupts_view(
                                    earlier,
                                )[b].name);
                            }
                        }
                    }
                }
                m += 1;
            }
        }
        i += 1;
    }
    Rest { index, interrupts }
}

/// The entry of the peripheral called `peripheral` in `index`.
pub fn entry_of<'a>(index: &'a Vec<IndexEntry>, peripheral: &str) -> (r: Option<&'a IndexEntry>)
    ensures
        match r {
            Some(e) => e@.peripheral == peripheral@ && exists|k: int|
                0 <= k < index@.len() && #[trigger] index@[k] == *e,
            None => forall|k: int| 0 <= k < index@.len() ==> (#[trigger] index@[k])@.peripheral
                != peripheral@,
        },
{
    let mut k: usize = 0;
    while k < index.len()
        invariant
            k <= index@.len(),
            forall|m: int| 0 <= m < k ==> (#[trigger] index@[m])@.peripheral != peripheral@,
        decreases index@.len() - k,
    {
        if str_eq(index[k].peripheral.as_str(), peripheral) {
            return Some(&index[k]);
        }
        k += 1;
    }
    None
}

} // verus!
