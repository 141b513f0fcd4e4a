//! A bit field of a register.

use vstd::prelude::*;
use crate::error::Error;

verus! {

/// How software may access a register or a field.
#[derive(Clone, Copy, Debug, PartialEq, Eq, Structural)]
pub enum Access {
    ReadOnly,
    WriteOnly,
    ReadWrite,
}

/// How the bits of a field are reached.
#[derive(Clone, Copy, Debug, PartialEq, Eq, Structural)]
pub enum Band {
    /// One bit of a register outside the bit-band region.
    Bit,
    /// Two or more contiguous bits.
    Bits,
    /// One bit of a register inside the bit-band region: it has a word of
    /// its own in the alias region and can be written alone.
    BitBand,
}

/// The widest register.
pub const MAX_WIDTH: u32 = 32;

/// What a field is: its name, the position of its lowest bit, the number of
/// its bits, and its access mode.
pub struct FieldView {
    pub name: Seq<char>,
    pub bit_offset: nat,
    pub bit_width: nat,
    pub access: Access,
}

impl FieldView {
    /// One past the field's highest bit.
    pub open spec fn end(self) -> nat {
        self.bit_offset + self.bit_width
    }

    /// A field has at least one bit and lies within the widest register.
    pub open spec fn wf(self) -> bool {
        1 <= self.bit_width && self.end() <= MAX_WIDTH
    }

    /// Whether bit `k` belongs to the field.
    pub open spec fn covers(self, k: nat) -> bool {
        self.bit_offset <= k < self.end()
    }

    /// Whether the two fields share a bit.
    pub open spec fn overlaps(self, other: FieldView) -> bool {
        self.bit_offset < other.end() && other.bit_offset < self.end()
    }

    /// The field's band, in a register that is (`true`) or is not inside the
    /// bit-band region.
    pub open spec fn band(self, bit_band: bool) -> Band {
        if self.bit_width != 1 {
            Band::Bits
        } else if bit_band {
            Band::BitBand
        } else {
            Band::Bit
        }
    }
}

/// Where a field lies, from what a description may say of it: the position
/// of its lowest bit, or else its lowest bit; the number of its bits, or
/// else its lowest and its highest bit. None, if the description says too
/// little or puts the highest bit below the lowest.
pub open spec fn described_range(
    bit_offset: Option<u32>,
    bit_width: Option<u32>,
    lsb: Option<u32>,
    msb: Option<u32>,
) -> Option<(nat, nat)> {
    let offset = match bit_offset {
        Some(o) => Some(o),
        None => lsb,
    };
    let width: Option<nat> = match bit_width {
        Some(w) => Some(w as nat),
        None => match (lsb, msb) {
            (Some(l), Some(m)) => if l <= m {
                Some((m - l + 1) as nat)
            } else {
                None
            },
            _ => None,
        },
    };
    match (offset, width) {
        (Some(o), Some(w)) => Some((o as nat, w)),
        _ => None,
    }
}

/// A bit field. Every value has at least one bit and ends at or below bit 32.
#[derive(Debug)]
pub struct Field {
    name: String,
    bit_offset: u32,
    bit_width: u32,
    access: Access,
}

impl View for Field {
    type V = FieldView;

    closed spec fn view(&self) -> FieldView {
        FieldView {
            name: self.name@,
            bit_offset: self.bit_offset as nat,
            bit_width: self.bit_width as nat,
            access: self.access,
        }
    }
}

impl Field {
    #[verifier::type_invariant]
    spec fn inv(&self) -> bool {
        self@.wf()
    }

    /// A field of `bit_width` bits from bit `bit_offset` on. A field without
    /// bits, or one that reaches beyond bit 31, is malformed.
    pub fn new(name: &str, bit_offset: u32, bit_width: u32, access: Access) -> (r: Result<
        Field,
        Error,
    >)
        ensures
            match r {
                Ok(f) => f@ == (FieldView {
                    name: name@,
                    bit_offset: bit_offset as nat,
                    bit_width: bit_width as nat,
                    access,
                }) && f@.wf(),
                Err(e) => e == Error::Parse && !(1 <= bit_width && bit_offset + bit_width
                    <= MAX_WIDTH),
            },
    {
        if bit_width < 1 || bit_offset > MAX_WIDTH || bit_width > MAX_WIDTH - bit_offset {
            return Err(Error::Parse);
        }
        Ok(Field { name: name.to_owned(), bit_offset, bit_width, access })
    }

    /// A field as a description gives it: by the position of its lowest bit
    /// and the number of its bits, or by its lowest and its highest bit.
    pub fn described(
        name: &str,
        bit_offset: Option<u32>,
        bit_width: Option<u32>,
        lsb: Option<u32>,
        msb: Option<u32>,
        access: Access,
    ) -> (r: Result<Field, Error>)
        ensures
            match r {
                Ok(f) => described_range(bit_offset, bit_width, lsb, msb) == Some(
                    (f@.bit_offset, f@.bit_width),
                ) && f@.name == name@ && f@.access == access && f@.wf(),
                Err(e) => e == Error::Parse && (described_range(bit_offset, bit_width, lsb, msb)
                    matches Some((o, w)) ==> !(1 <= w && o + w <= MAX_WIDTH)),
            },
    {
        let offset = match bit_offset {
            Some(o) => o,
            None => match lsb {
                Some(l) => l,
                None => {
                    return Err(Error::Parse);
                },
            },
        };
        let width = match bit_width {
            Some(w) => w,
            None => match (lsb, msb) {
                (Some(l), Some(m)) => {
                    if l > m {
                        return Err(Error::Parse);
                    }
                    if m - l >= MAX_WIDTH {
                        return Err(Error::Parse);
                    }
                    m - l + 1
                },
                _ => {
                    return Err(Error::Parse);
                },
            },
        };
        Field::new(name, offset, width, access)
    }

    /// States what holds of every field.
    pub fn validity(&self)
        ensures
            self@.wf(),
    {
        proof {
            use_type_invariant(self);
        }
    }

    pub fn name(&self) -> (r: &str)
        ensures
            r@ == self@.name,
    {
        self.name.as_str()
    }

    pub fn bit_offset(&self) -> (r: u32)
        ensures
            r == self@.bit_offset,
    {
        self.bit_offset
    }

    pub fn bit_width(&self) -> (r: u32)
        ensures
            r == self@.bit_width,
    {
        self.bit_width
    }

    /// One past the highest bit.
    pub fn end(&self) -> (r: u32)
        ensures
            r == self@.end(),
            r <= MAX_WIDTH,
    {
        proof {
            use_type_invariant(self);
        }
        self.bit_offset + self.bit_width
    }

    pub fn access(&self) -> (r: Access)
        ensures
            r == self@.access,
    {
        self.access
    }

    /// The field's band in a register that is or is not inside the bit-band
    /// region.
    pub fn band(&self, bit_band: bool) -> (r: Band)
        ensures
            r == self@.band(bit_band),
    {
        if self.bit_width != 1 {
            Band::Bits
        } else if bit_band {
            Band::BitBand
        } else {
            Band::Bit
        }
    }

    /// Whether the two fields share a bit.
    pub fn overlaps(&self, other: &Field) -> (r: bool)
        ensures
            r == self@.overlaps(other@),
    {
        proof {
            use_type_invariant(self);
            use_type_invariant(other);
        }
        self.bit_offset < other.bit_offset + other.bit_width && other.bit_offset
            < self.bit_offset + self.bit_width
    }

    /// The same field with `bit_width` bits.
    pub fn resized(&self, bit_width: u32) -> (r: Result<Field, Error>)
        ensures
            match r {
                Ok(f) => f@ == (FieldView { bit_width: bit_width as nat, ..self@ }) && f@.wf(),
                Err(e) => e == Error::FieldOverlap && !(FieldView {
                    bit_width: bit_width as nat,
                    ..self@
                }).wf(),
            },
    {
        if bit_width < 1 || self.bit_offset > MAX_WIDTH || bit_width > MAX_WIDTH
            - self.bit_offset {
            return Err(Error::FieldOverlap);
        }
        Ok(Field { name: self.name.clone(), bit_offset: self.bit_offset, bit_width, access: self.access })
    }

    /// The same field under the name `name`.
    pub fn renamed(&self, name: &str) -> (r: Field)
        ensures
            r@ == (FieldView { name: name@, ..self@ }),
    {
        proof {
            use_type_invariant(self);
        }
        Field {
            name: name.to_owned(),
            bit_offset: self.bit_offset,
            bit_width: self.bit_width,
            access: self.access,
        }
    }

    /// The same field with its lowest bit at `bit_offset`.
    pub fn repositioned(&self, bit_offset: u32) -> (r: Result<Field, Error>)
        ensures
            match r {
                Ok(f) => f@ == (FieldView { bit_offset: bit_offset as nat, ..self@ }) && f@.wf(),
                Err(e) => e == Error::FieldOverlap && !(FieldView {
                    bit_offset: bit_offset as nat,
                    ..self@
                }).wf(),
            },
    {
        if self.bit_width < 1 || bit_offset > MAX_WIDTH || self.bit_width > MAX_WIDTH
            - bit_offset {
            return Err(Error::FieldOverlap);
        }
        Ok(Field { name: self.name.clone(), bit_offset, bit_width: self.bit_width, access: self.access })
    }
}

impl Clone for Field {
    fn clone(&self) -> (r: Field)
        ensures
            r@ == self@,
    {
        proof {
            use_type_invariant(self);
        }
        Field {
            name: self.name.clone(),
            bit_offset: self.bit_offset,
            bit_width: self.bit_width,
            access: self.access,
        }
    }
}

} // verus!
