//! Whether a description says of a port what the ownership schema says of
//! it: the registers and fields under the same names, the fields at the same
//! bits.

use vstd::prelude::*;
use crate::device::{Device, DeviceView};
use crate::register::{Register, RegisterView};
use crate::text::str_eq;
use crate::schema::{
    FieldToken, FieldTokenView, Ownership, RegisterToken, RegisterTokenView, TokenSet, TokenSetView,
};

verus! {

/// The register `r` has the field that `t` stands for, at the same bits.
pub open spec fn field_agrees(t: FieldTokenView, r: RegisterView) -> bool {
    &&& r.has_field(t.name)
    &&& r.fields[r.field_index(t.name)].bit_offset == t.slot.bit_offset
    &&& r.fields[r.field_index(t.name)].bit_width == t.slot.bit_width
}

/// Whether `t` holds a token for a field called `name`.
pub open spec fn has_token(t: RegisterTokenView, name: Seq<char>) -> bool {
    exists|k: int| 0 <= k < t.fields.len() && (#[trigger] t.fields[k]).name == name
}

/// The register `r` has every field that `t` holds a token for; and where
/// the register has one owner, `t` holds a token for every field of it.
pub open spec fn fields_agree(t: RegisterTokenView, r: RegisterView) -> bool {
    &&& forall|k: int| 0 <= k < t.fields.len() ==> field_agrees(#[trigger] t.fields[k], r)
    &&& t.reg.ownership_of() == Ownership::Exclusive ==> forall|j: int|
        0 <= j < r.fields.len() ==> has_token(t, (#[trigger] r.fields[j]).name)
}

/// Whether `t` holds a token for a field called `name` at the bits
/// `bit_offset` to `bit_offset + bit_width - 1`.
pub open spec fn token_at(t: RegisterTokenView, name: Seq<char>, bit_offset: nat, bit_width: nat) -> bool {
    exists|k: int|
        0 <= k < t.fields.len() && (#[trigger] t.fields[k]).name == name && t.fields[k].slot.bit_offset
            == bit_offset && t.fields[k].slot.bit_width == bit_width
}

/// Whether `r` has a field called `name` at the bits `bit_offset` to
/// `bit_offset + bit_width - 1`.
pub open spec fn field_at(r: RegisterView, name: Seq<char>, bit_offset: nat, bit_width: nat) -> bool {
    exists|j: int|
        0 <= j < r.fields.len() && (#[trigger] r.fields[j]).name == name && r.fields[j].bit_offset
            == bit_offset && r.fields[j].bit_width == bit_width
}

/// Where a register with one owner agrees with its token, the schema and
/// the description say the same of it: the same field names at the same
/// bit positions with the same widths, none more on either side.
pub proof fn lemma_agreement_is_identity(
    t: RegisterTokenView,
    r: RegisterView,
    name: Seq<char>,
    bit_offset: nat,
    bit_width: nat,
)
    requires
        r.wf(),
        fields_agree(t, r),
        t.reg.ownership_of() == Ownership::Exclusive,
    ensures
        token_at(t, name, bit_offset, bit_width) <==> field_at(r, name, bit_offset, bit_width),
{
    if token_at(t, name, bit_offset, bit_width) {
        let k = choose|k: int|
            0 <= k < t.fields.len() && (#[trigger] t.fields[k]).name == name && t.fields[k].slot.bit_offset
                == bit_offset && t.fields[k].slot.bit_width == bit_width;
        assert(field_agrees(t.fields[k], r));
        let j = r.field_index(name);
        assert(r.fields[j].name == name);
    }
    if field_at(r, name, bit_offset, bit_width) {
        let j = choose|j: int|
            0 <= j < r.fields.len() && (#[trigger] r.fields[j]).name == name && r.fields[j].bit_offset
                == bit_offset && r.fields[j].bit_width == bit_width;
        assert(has_token(t, r.fields[j].name));
        let k = choose|k: int| 0 <= k < t.fields.len() && (#[trigger] t.fields[k]).name == name;
        assert(field_agrees(t.fields[k], r));
        r.lemma_field_index(name, j);
    }
}

/// The device has the register that `t` stands for, with its fields. A
/// register that the schema marks optional may be missing.
pub open spec fn register_agrees(t: RegisterTokenView, dev: DeviceView) -> bool {
    if dev.has_peripheral(t.peripheral) && dev.peripheral(t.peripheral).has_register(t.name) {
        fields_agree(t, dev.peripheral(t.peripheral).register(t.name))
    } else {
        t.reg.optional_of()
    }
}

/// The device agrees with every token of the set.
pub open spec fn set_agrees(set: TokenSetView, dev: DeviceView) -> bool {
    forall|i: int| 0 <= i < set.registers.len() ==> register_agrees(#[trigger] set.registers[i], dev)
}

/// Whether the register `r` has the field that `t` stands for, at the same
/// bits.
pub fn check_field(t: &FieldToken, r: &Register) -> (ok: bool)
    ensures
        ok == field_agrees(t@, r@),
{
    match r.field(t.name()) {
        Ok(f) => f.bit_offset() == t.slot().bit_offset && f.bit_width() == t.slot().bit_width,
        Err(_) => false,
    }
}

/// Whether the register `r` agrees with the token `t`.
pub fn check_fields(t: &RegisterToken, r: &Register) -> (ok: bool)
    ensures
        ok == fields_agree(t@, r@),
{
    let mut k: usize = 0;
    while k < t.field_count()
        invariant
            k <= t@.fields.len(),
            forall|j: int| 0 <= j < k ==> field_agrees(#[trigger] t@.fields[j], r@),
        decreases t@.fields.len() - k,
    {
        if !check_field(t.field_at(k), r) {
            return false;
        }
        k += 1;
    }
    match t.reg().ownership() {
        Ownership::Exclusive => {
            let mut j: usize = 0;
            while j < r.field_count()
                invariant
                    j <= r@.fields.len(),
                    t@.reg.ownership_of() == Ownership::Exclusive,
                    forall|k: int| 0 <= k < t@.fields.len() ==> field_agrees(#[trigger] t@.fields[k], r@),
                    forall|i: int| 0 <= i < j ==> has_token(t@, (#[trigger] r@.fields[i]).name),
                decreases r@.fields.len() - j,
            {
                if !holds_token(t, r.field_at(j).name()) {
                    assert(!has_token(t@, r@.fields[j as int].name));
                    return false;
                }
                j += 1;
            }
            true
        },
        Ownership::Shared => true,
    }
}

/// Whether `t` holds a token for a field called `name`.
pub fn holds_token(t: &RegisterToken, name: &str) -> (r: bool)
    ensures
        r == has_token(t@, name@),
{
    let mut k: usize = 0;
    while k < t.field_count()
        invariant
            k <= t@.fields.len(),
            forall|i: int| 0 <= i < k ==> (#[trigger] t@.fields[i]).name != name@,
        decreases t@.fields.len() - k,
    {
        if str_eq(t.field_at(k).name(), name) {
            return true;
        }
        k += 1;
    }
    false
}

/// Whether the device agrees with the token `t`.
pub fn check_register(t: &RegisterToken, dev: &Device) -> (ok: bool)
    ensures
        ok == register_agrees(t@, dev@),
{
    match dev.peripheral(t.peripheral()) {
        Ok(p) => match p.register(t.name()) {
            Ok(r) => check_fields(t, r),
            Err(_) => t.reg().optional(),
        },
        Err(_) => t.reg().optional(),
    }
}

/// Whether the device agrees with the schema on the port of `set`: whether
/// what is emitted for the port and what the schema expands to are the same
/// registers and fields at the same bits.
pub fn agrees(set: &TokenSet, dev: &Device) -> (ok: bool)
    ensures
        ok == set_agrees(set@, dev@),
{
    let mut i: usize = 0;
    while i < set.register_count()
        invariant
            i <= set@.registers.len(),
            forall|j: int| 0 <= j < i ==> register_agrees(#[trigger] set@.registers[j], dev@),
        decreases set@.registers.len() - i,
    {
        if !check_register(set.register_at(i), dev) {
            return false;
        }
        i += 1;
    }
    true
}

} // verus!
