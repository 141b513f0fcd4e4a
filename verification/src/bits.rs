//! The access discipline of field tokens: an owner reads and writes the bits
//! of its field and leaves every other bit of the word as it was. Owners of
//! disjoint fields of one register therefore need no lock among them.

use vstd::prelude::*;

verus! {

/// The bits `offset` to `offset + width - 1` of a word, set.
pub open spec fn mask_of(offset: u32, width: u32) -> u32 {
    if width >= 32 {
        0xffff_ffffu32
    } else {
        (!(0xffff_ffffu32 << width)) << offset
    }
}

/// The value of the field of `width` bits at `offset` in `word`.
pub open spec fn extract_of(offset: u32, width: u32, word: u32) -> u32 {
    (word & mask_of(offset, width)) >> offset
}

/// `word` with the field of `width` bits at `offset` set to the low bits of
/// `value`.
pub open spec fn insert_of(offset: u32, width: u32, word: u32, value: u32) -> u32 {
    (word & !mask_of(offset, width)) | ((value << offset) & mask_of(offset, width))
}

/// The bits of a field, set.
pub fn mask(offset: u32, width: u32) -> (r: u32)
    requires
        1 <= width,
        offset + width <= 32,
    ensures
        r == mask_of(offset, width),
{
    if width >= 32 {
        0xffff_ffffu32
    } else {
        (!(0xffff_ffffu32 << width)) << offset
    }
}

/// Reads a field out of `word`.
pub fn extract(offset: u32, width: u32, word: u32) -> (r: u32)
    requires
        1 <= width,
        offset + width <= 32,
    ensures
        r == extract_of(offset, width, word),
{
    (word & mask(offset, width)) >> offset
}

/// Writes `value` into a field of `word`. No bit outside the field changes.
pub fn insert(offset: u32, width: u32, word: u32, value: u32) -> (r: u32)
    requires
        1 <= width,
        offset + width <= 32,
    ensures
        r == insert_of(offset, width, word, value),
        (r & !mask_of(offset, width)) == (word & !mask_of(offset, width)),
{
    let m = mask(offset, width);
    let r = (word & !m) | ((value << offset) & m);
    assert((((word & !m) | ((value << offset) & m)) & !m) == (word & !m)) by (bit_vector);
    r
}

/// The fields `[a, a + wa)` and `[b, b + wb)` of a word have no bit in
/// common if their ranges are disjoint.
pub proof fn lemma_masks_apart(a: u32, wa: u32, b: u32, wb: u32)
    requires
        1 <= wa,
        1 <= wb,
        a + wa <= 32,
        b + wb <= 32,
        a + wa <= b || b + wb <= a,
    ensures
        mask_of(a, wa) & mask_of(b, wb) == 0,
{
    if wa >= 32 || wb >= 32 {
    } else {
        assert(((!(0xffff_ffffu32 << wa)) << a) & ((!(0xffff_ffffu32 << wb)) << b) == 0)
            by (bit_vector)
            requires
                1u32 <= wa,
                1u32 <= wb,
                wa < 32u32,
                wb < 32u32,
                a < 32u32,
                b < 32u32,
                a + wa <= 32u32,
                b + wb <= 32u32,
                a + wa <= b || b + wb <= a,
        ;
    }
}

/// A write to one field leaves a disjoint field as it was: who reads the
/// second field sees the same value before and after.
pub proof fn lemma_insert_keeps_others(a: u32, wa: u32, b: u32, wb: u32, word: u32, value: u32)
    requires
        1 <= wa,
        1 <= wb,
        a + wa <= 32,
        b + wb <= 32,
        a + wa <= b || b + wb <= a,
    ensures
        extract_of(b, wb, insert_of(a, wa, word, value)) == extract_of(b, wb, word),
{
    lemma_masks_apart(a, wa, b, wb);
    let ma = mask_of(a, wa);
    let mb = mask_of(b, wb);
    assert((((word & !ma) | ((value << a) & ma)) & mb) == (word & mb)) by (bit_vector)
        requires
            ma & mb == 0,
    ;
}

/// Writes to disjoint fields can be made in either order.
pub proof fn lemma_inserts_commute(
    a: u32,
    wa: u32,
    b: u32,
    wb: u32,
    word: u32,
    va: u32,
    vb: u32,
)
    requires
        1 <= wa,
        1 <= wb,
        a + wa <= 32,
        b + wb <= 32,
        a + wa <= b || b + wb <= a,
    ensures
        insert_of(b, wb, insert_of(a, wa, word, va), vb) == insert_of(
            a,
            wa,
            insert_of(b, wb, word, vb),
            va,
        ),
{
    lemma_masks_apart(a, wa, b, wb);
    let ma = mask_of(a, wa);
    let mb = mask_of(b, wb);
    assert(((((word & !ma) | ((va << a) & ma)) & !mb) | ((vb << b) & mb)) == ((((word & !mb) | ((vb
        << b) & mb)) & !ma) | ((va << a) & ma))) by (bit_vector)
        requires
            ma & mb == 0,
    ;
}

/// What was written into a field is what is read from it: the low bits of
/// the value.
pub proof fn lemma_insert_then_extract(a: u32, wa: u32, word: u32, value: u32)
    requires
        1 <= wa,
        a + wa <= 32,
    ensures
        extract_of(a, wa, insert_of(a, wa, word, value)) == value & mask_of(0, wa),
{
    if wa >= 32 {
        assert(a == 0);
        assert((((word & !0xffff_ffffu32) | ((value << 0u32) & 0xffff_ffffu32)) & 0xffff_ffffu32)
            >> 0u32 == value & 0xffff_ffffu32) by (bit_vector);
    } else {
        let low: u32 = !(0xffff_ffffu32 << wa);
        assert(low << 0u32 == low) by (bit_vector);
        assert((((word & !(low << a)) | ((value << a) & (low << a))) & (low << a)) >> a == value
            & low) by (bit_vector)
            requires
                a < 32u32,
                wa < 32u32,
                a + wa <= 32u32,
                low == !(0xffff_ffffu32 << wa),
        ;
    }
}

} // verus!
