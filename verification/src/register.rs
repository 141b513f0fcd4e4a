//! A register of a peripheral, with its fields in ascending bit order.

use vstd::prelude::*;
use crate::error::{Entity, Error};
use crate::field::{Access, Field, FieldView};
use crate::text::str_eq;

verus! {

/// What a register is: its name, its byte offset from the peripheral's base,
/// its width in bits, its access mode, whether it is declared an alias of
/// another register, and its fields.
pub struct RegisterView {
    pub name: Seq<char>,
    pub offset: nat,
    pub width: nat,
    pub access: Access,
    pub alias: bool,
    pub fields: Seq<FieldView>,
}

impl RegisterView {
    /// The number of bytes the register occupies.
    pub open spec fn bytes(self) -> nat {
        self.width / 8
    }

    /// One past the register's last byte, from the peripheral's base.
    pub open spec fn end(self) -> nat {
        self.offset + self.bytes()
    }

    /// Whether the two registers occupy a common byte.
    pub open spec fn shares_bytes(self, other: RegisterView) -> bool {
        self.offset < other.end() && other.offset < self.end()
    }

    /// Two registers of one peripheral may stand together if they keep apart
    /// or are both declared aliases.
    pub open spec fn compatible(self, other: RegisterView) -> bool {
        (self.alias && other.alias) || !self.shares_bytes(other)
    }

    pub open spec fn has_field(self, name: Seq<char>) -> bool {
        exists|i: int| 0 <= i < self.fields.len() && (#[trigger] self.fields[i]).name == name
    }

    /// The position of the field called `name`, where there is one.
    pub open spec fn field_index(self, name: Seq<char>) -> int {
        choose|i: int| 0 <= i < self.fields.len() && (#[trigger] self.fields[i]).name == name
    }

    /// The width is 8, 16 or 32; every field lies within it; the fields stand
    /// in ascending bit order, none reaching into the next; no name is used
    /// twice.
    pub open spec fn wf(self) -> bool {
        &&& self.width == 8 || self.width == 16 || self.width == 32
        &&& forall|i: int|
            0 <= i < self.fields.len() ==> (#[trigger] self.fields[i]).wf() && self.fields[i].end()
                <= self.width
        &&& forall|i: int, j: int|
            0 <= i < j < self.fields.len() ==> (#[trigger] self.fields[i]).end() <= (
            #[trigger] self.fields[j]).bit_offset
        &&& forall|i: int, j: int|
            0 <= i < j < self.fields.len() ==> (#[trigger] self.fields[i]).name != (
            #[trigger] self.fields[j]).name
    }

    /// Whether `f` can be added: it lies within the register, its name is
    /// free, and it shares no bit with a field that is there.
    pub open spec fn admits(self, f: FieldView) -> bool {
        &&& f.wf()
        &&& f.end() <= self.width
        &&& !self.has_field(f.name)
        &&& forall|i: int| 0 <= i < self.fields.len() ==> !(#[trigger] self.fields[i]).overlaps(f)
    }

    /// `p` is where a field that starts at bit `bit` belongs: behind every
    /// field that starts at or below `bit`, before every other.
    pub open spec fn is_slot(self, bit: nat, p: int) -> bool {
        &&& 0 <= p <= self.fields.len()
        &&& forall|i: int| 0 <= i < p ==> (#[trigger] self.fields[i]).bit_offset <= bit
        &&& forall|i: int| p <= i < self.fields.len() ==> (#[trigger] self.fields[i]).bit_offset > bit
    }

    pub open spec fn slot(self, bit: nat) -> int {
        choose|p: int| self.is_slot(bit, p)
    }

    /// The register with `f` added in its place.
    pub open spec fn with_field(self, f: FieldView) -> RegisterView {
        RegisterView { fields: self.fields.insert(self.slot(f.bit_offset), f), ..self }
    }

    /// The register without the field called `name`.
    pub open spec fn without_field(self, name: Seq<char>) -> RegisterView {
        RegisterView { fields: self.fields.remove(self.field_index(name)), ..self }
    }

    /// Adding a field: refused unless the register admits it.
    pub open spec fn add_field(self, f: FieldView) -> Result<RegisterView, Error> {
        if self.admits(f) {
            Ok(self.with_field(f))
        } else {
            Err(Error::FieldOverlap)
        }
    }

    /// Putting `g` in the place of the field called `name`: the other fields
    /// must admit `g`.
    pub open spec fn replace_field(self, name: Seq<char>, g: FieldView) -> Result<
        RegisterView,
        Error,
    > {
        if !self.has_field(name) {
            Err(Error::Lookup(Entity::Field))
        } else if !self.without_field(name).admits(g) {
            Err(Error::FieldOverlap)
        } else {
            Ok(self.without_field(name).with_field(g))
        }
    }

    /// Giving the field called `name` the width `bit_width`.
    pub open spec fn resize_field(self, name: Seq<char>, bit_width: nat) -> Result<
        RegisterView,
        Error,
    > {
        self.replace_field(
            name,
            FieldView { bit_width, ..self.fields[self.field_index(name)] },
        )
    }

    /// Moving the lowest bit of the field called `name` to `bit_offset`.
    pub open spec fn reposition_field(self, name: Seq<char>, bit_offset: nat) -> Result<
        RegisterView,
        Error,
    > {
        self.replace_field(
            name,
            FieldView { bit_offset, ..self.fields[self.field_index(name)] },
        )
    }

    /// Giving the field called `name` the name `new_name`.
    pub open spec fn rename_field(self, name: Seq<char>, new_name: Seq<char>) -> Result<
        RegisterView,
        Error,
    > {
        self.replace_field(
            name,
            FieldView { name: new_name, ..self.fields[self.field_index(name)] },
        )
    }

    /// In a well-formed register a name finds one position only.
    pub proof fn lemma_field_index(self, name: Seq<char>, i: int)
        requires
            self.wf(),
            0 <= i < self.fields.len(),
            self.fields[i].name == name,
        ensures
            self.has_field(name),
            self.field_index(name) == i,
    {
        let k = self.field_index(name);
        assert(0 <= k < self.fields.len() && self.fields[k].name == name);
        if k < i {
            assert(self.fields[k].name != self.fields[i].name);
        } else if i < k {
            assert(self.fields[i].name != self.fields[k].name);
        }
    }

    /// There is one slot at most.
    pub proof fn lemma_slot(self, bit: nat, p: int)
        requires
            self.is_slot(bit, p),
        ensures
            self.slot(bit) == p,
    {
        let q = self.slot(bit);
        assert(self.is_slot(bit, q));
        if q < p {
            assert(self.fields[q].bit_offset <= bit);
        } else if p < q {
            assert(self.fields[p].bit_offset <= bit);
        }
    }

    /// Among fields in ascending order there is a place for every bit.
    proof fn lemma_place(self, bit: nat, n: int) -> (p: int)
        requires
            self.wf(),
            0 <= n <= self.fields.len(),
        ensures
            0 <= p <= n,
            forall|i: int| 0 <= i < p ==> (#[trigger] self.fields[i]).bit_offset <= bit,
            forall|i: int| p <= i < n ==> (#[trigger] self.fields[i]).bit_offset > bit,
        decreases n,
    {
        if n == 0 {
            0
        } else {
            let q = self.lemma_place(bit, n - 1);
            if self.fields[n - 1].bit_offset <= bit {
                assert forall|i: int| 0 <= i < n implies (#[trigger] self.fields[i]).bit_offset
                    <= bit by {
                    if i < n - 1 {
                        assert(self.fields[i].end() <= self.fields[n - 1].bit_offset);
                    }
                }
                n
            } else {
                q
            }
        }
    }

    /// A well-formed register has a slot for every bit.
    pub proof fn lemma_slot_exists(self, bit: nat)
        requires
            self.wf(),
        ensures
            self.is_slot(bit, self.slot(bit)),
    {
        let p = self.lemma_place(bit, self.fields.len() as int);
        assert(self.is_slot(bit, p));
    }

    /// A field that the register admits leaves it well-formed; the register
    /// then has the field, and every field it had.
    pub proof fn lemma_with_field(self, f: FieldView)
        requires
            self.wf(),
            self.admits(f),
        ensures
            self.with_field(f).wf(),
            self.with_field(f).has_field(f.name),
            forall|g: Seq<char>| self.has_field(g) ==> self.with_field(f).has_field(g),
    {
        self.lemma_slot_exists(f.bit_offset);
        let p = self.slot(f.bit_offset);
        let after = self.with_field(f);
        assert forall|i: int| 0 <= i < after.fields.len() implies (#[trigger] after.fields[i]).wf()
            && after.fields[i].end() <= after.width by {
            if i < p {
                assert(after.fields[i] == self.fields[i]);
            } else if i > p {
                assert(after.fields[i] == self.fields[i - 1]);
            }
        }
        assert forall|i: int, j: int| 0 <= i < j < after.fields.len() implies (
        #[trigger] after.fields[i]).end() <= (#[trigger] after.fields[j]).bit_offset && after.fields[i].name
            != after.fields[j].name by {
            let a = if i < p { i } else { i - 1 };
            let b = if j < p { j } else { j - 1 };
            if i != p {
                assert(after.fields[i] == self.fields[a]);
                assert(!self.fields[a].overlaps(f));
            }
            if j != p {
                assert(after.fields[j] == self.fields[b]);
                assert(!self.fields[b].overlaps(f));
            }
            if i != p && j != p {
                assert(self.fields[a].end() <= self.fields[b].bit_offset);
            }
        }
        assert(after.fields[p] == f);
        assert forall|g: Seq<char>| self.has_field(g) implies after.has_field(g) by {
            let k = self.field_index(g);
            let m = if k < p { k } else { k + 1 };
            assert(after.fields[m] == self.fields[k]);
        }
    }

    /// Without one of its fields a register is well-formed still, and has
    /// every other field it had.
    pub proof fn lemma_without_field(self, name: Seq<char>)
        requires
            self.wf(),
            self.has_field(name),
        ensures
            self.without_field(name).wf(),
            forall|g: Seq<char>| g != name && self.has_field(g) ==> self.without_field(name).has_field(g),
    {
        let i = self.field_index(name);
        let after = self.without_field(name);
        assert forall|k: int| 0 <= k < after.fields.len() implies (#[trigger] after.fields[k]).wf()
            && after.fields[k].end() <= after.width by {
            if k < i {
                assert(after.fields[k] == self.fields[k]);
            } else {
                assert(after.fields[k] == self.fields[k + 1]);
            }
        }
        assert forall|k: int, l: int| 0 <= k < l < after.fields.len() implies (
        #[trigger] after.fields[k]).end() <= (#[trigger] after.fields[l]).bit_offset && after.fields[k].name
            != after.fields[l].name by {
            let a = if k < i { k } else { k + 1 };
            let b = if l < i { l } else { l + 1 };
            assert(after.fields[k] == self.fields[a]);
            assert(after.fields[l] == self.fields[b]);
            assert(self.fields[a].end() <= self.fields[b].bit_offset);
        }
        assert forall|g: Seq<char>| g != name && self.has_field(g) implies after.has_field(g) by {
            let k = self.field_index(g);
            let m = if k < i { k } else { k - 1 };
            assert(after.fields[m] == self.fields[k]);
        }
    }

    /// A field put in the place of another leaves the register well-formed,
    /// with the new field and every field it had but the one replaced.
    pub proof fn lemma_replace_field(self, name: Seq<char>, g: FieldView)
        requires
            self.wf(),
            self.replace_field(name, g) is Ok,
        ensures
            self.replace_field(name, g).unwrap().wf(),
            self.replace_field(name, g).unwrap().has_field(g.name),
            forall|h: Seq<char>|
                h != name && self.has_field(h) ==> self.replace_field(name, g).unwrap().has_field(h),
    {
        self.lemma_without_field(name);
        self.without_field(name).lemma_with_field(g);
    }

    /// The fields of a well-formed register are pairwise disjoint, and each
    /// lies within the register's width.
    pub proof fn lemma_fields_disjoint(self)
        requires
            self.wf(),
        ensures
            forall|i: int, j: int|
                0 <= i < self.fields.len() && 0 <= j < self.fields.len() && i != j ==> !(
                #[trigger] self.fields[i]).overlaps(#[trigger] self.fields[j]),
            forall|i: int|
                0 <= i < self.fields.len() ==> (#[trigger] self.fields[i]).end() <= self.width,
    {
        assert forall|i: int, j: int|
            0 <= i < self.fields.len() && 0 <= j < self.fields.len() && i != j implies !(
        #[trigger] self.fields[i]).overlaps(#[trigger] self.fields[j]) by {
            if i < j {
                assert(self.fields[i].end() <= self.fields[j].bit_offset);
            } else {
                assert(self.fields[j].end() <= self.fields[i].bit_offset);
            }
        }
    }
}

/// A register. Every value is well-formed.
#[derive(Debug)]
pub struct Register {
    name: String,
    offset: u32,
    width: u32,
    access: Access,
    alias: bool,
    fields: Vec<Field>,
}

impl View for Register {
    type V = RegisterView;

    closed spec fn view(&self) -> RegisterView {
        RegisterView {
            name: self.name@,
            offset: self.offset as nat,
            width: self.width as nat,
            access: self.access,
            alias: self.alias,
            fields: self.fields@.map_values(|f: Field| f@),
        }
    }
}

impl Register {
    #[verifier::type_invariant]
    spec fn inv(&self) -> bool {
        self@.wf()
    }

    /// A register without fields. A width other than 8, 16 or 32 bits is
    /// malformed.
    pub fn new(name: &str, offset: u32, width: u32, access: Access, alias: bool) -> (r: Result<
        Register,
        Error,
    >)
        ensures
            match r {
                Ok(reg) => reg@ == (RegisterView {
                    name: name@,
                    offset: offset as nat,
                    width: width as nat,
                    access,
                    alias,
                    fields: Seq::empty(),
                }) && reg@.wf(),
                Err(e) => e == Error::Parse && width != 8 && width != 16 && width != 32,
            },
    {
        if width != 8 && width != 16 && width != 32 {
            return Err(Error::Parse);
        }
        let fields: Vec<Field> = Vec::new();
        assert(fields@.map_values(|f: Field| f@) =~= Seq::<FieldView>::empty());
        Ok(Register { name: name.to_owned(), offset, width, access, alias, fields })
    }

    /// States what holds of every register.
    pub fn validity(&self)
        ensures
            self@.wf(),
    {
        proof {
            use_type_invariant(self);
        }
    }

    pub fn name(&self) -> (r: &str)
        ensures
            r@ == self@.name,
    {
        self.name.as_str()
    }

    pub fn offset(&self) -> (r: u32)
        ensures
            r == self@.offset,
    {
        self.offset
    }

    pub fn width(&self) -> (r: u32)
        ensures
            r == self@.width,
    {
        self.width
    }

    /// The number of bytes the register occupies.
    pub fn bytes(&self) -> (r: u32)
        ensures
            r == self@.bytes(),
            1 <= r <= 4,
    {
        proof {
            use_type_invariant(self);
        }
        self.width / 8
    }

    pub fn access(&self) -> (r: Access)
        ensures
            r == self@.access,
    {
        self.access
    }

    pub fn is_alias(&self) -> (r: bool)
        ensures
            r == self@.alias,
    {
        self.alias
    }

    pub fn field_count(&self) -> (r: usize)
        ensures
            r == self@.fields.len(),
    {
        self.fields.len()
    }

    /// The field at position `i`, in ascending bit order.
    pub fn field_at(&self, i: usize) -> (r: &Field)
        requires
            i < self@.fields.len(),
        ensures
            r@ == self@.fields[i as int],
    {
        &self.fields[i]
    }

    /// Whether the two registers occupy a common byte.
    pub fn shares_bytes(&self, other: &Register) -> (r: bool)
        ensures
            r == self@.shares_bytes(other@),
    {
        proof {
            use_type_invariant(self);
            use_type_invariant(other);
        }
        let self_end: u64 = self.offset as u64 + (self.width / 8) as u64;
        let other_end: u64 = other.offset as u64 + (other.width / 8) as u64;
        (self.offset as u64) < other_end && (other.offset as u64) < self_end
    }

    /// Whether the two registers may stand in one peripheral.
    pub fn compatible(&self, other: &Register) -> (r: bool)
        ensures
            r == self@.compatible(other@),
    {
        (self.alias && other.alias) || !self.shares_bytes(other)
    }

    /// The position of the field called `name`.
    pub fn find_field(&self, name: &str) -> (r: Option<usize>)
        ensures
            match r {
                Some(i) => self@.has_field(name@) && i == self@.field_index(name@) && i
                    < self@.fields.len() && self@.fields[i as int].name == name@,
                None => !self@.has_field(name@),
            },
    {
        proof {
            use_type_invariant(self);
        }
        let mut i: usize = 0;
        while i < self.fields.len()
            invariant
                i <= self.fields.len(),
                self@.wf(),
                forall|j: int| 0 <= j < i ==> (#[trigger] self@.fields[j]).name != name@,
            decreases self.fields.len() - i,
        {
            if str_eq(self.fields[i].name(), name) {
                proof {
                    self@.lemma_field_index(name@, i as int);
                }
                return Some(i);
            }
            i += 1;
        }
        None
    }

    /// The field called `name`.
    pub fn field(&self, name: &str) -> (r: Result<&Field, Error>)
        ensures
            match r {
                Ok(f) => self@.has_field(name@) && f@ == self@.fields[self@.field_index(name@)],
                Err(e) => e == Error::Lookup(Entity::Field) && !self@.has_field(name@),
            },
    {
        match self.find_field(name) {
            Some(i) => Ok(&self.fields[i]),
            None => Err(Error::Lookup(Entity::Field)),
        }
    }

    /// Whether `f` can be added.
    pub fn admits(&self, f: &Field) -> (r: bool)
        ensures
            r == self@.admits(f@),
    {
        proof {
            use_type_invariant(self);
        }
        f.validity();
        if f.end() > self.width {
            return false;
        }
        let mut i: usize = 0;
        while i < self.fields.len()
            invariant
                i <= self.fields.len(),
                forall|j: int|
                    0 <= j < i ==> (#[trigger] self@.fields[j]).name != f@.name
                        && !self@.fields[j].overlaps(f@),
            decreases self.fields.len() - i,
        {
            let taken = str_eq(self.fields[i].name(), f.name());
            let shared = self.fields[i].overlaps(f);
            if taken || shared {
                assert((self@.fields[i as int]).name == f@.name || (self@.fields[i as int]).overlaps(
                    f@,
                ));
                return false;
            }
            i += 1;
        }
        true
    }

    /// Adds `f` in its place in the bit order, unless the register does not
    /// admit it.
    pub fn add_field(&mut self, f: Field) -> (r: Result<(), Error>)
        ensures
            final(self)@.wf(),
            match r {
                Ok(()) => old(self)@.add_field(f@) == Ok::<RegisterView, Error>(final(self)@),
                Err(e) => old(self)@.add_field(f@) == Err::<RegisterView, Error>(e) && final(self)@ == old(self)@,
            },
    {
        proof {
            use_type_invariant(&*self);
        }
        f.validity();
        if !self.admits(&f) {
            return Err(Error::FieldOverlap);
        }
        let mut p: usize = 0;
        while p < self.fields.len() && self.fields[p].bit_offset() <= f.bit_offset()
            invariant
                p <= self.fields.len(),
                self@.wf(),
                forall|j: int| 0 <= j < p ==> (#[trigger] self@.fields[j]).bit_offset <= f@.bit_offset,
            decreases self.fields.len() - p,
        {
            p += 1;
        }
        proof {
            assert forall|i: int| p <= i < self@.fields.len() implies (
            #[trigger] self@.fields[i]).bit_offset > f@.bit_offset by {
                if p < i {
                    assert(self@.fields[p as int].end() <= self@.fields[i].bit_offset);
                }
            }
            self@.lemma_slot(f@.bit_offset, p as int);
        }
        let ghost before = self@;
        let ghost after = before.with_field(f@);
        let mut fields: Vec<Field> = Vec::new();
        assert(fields@.map_values(|f: Field| f@) =~= Seq::<FieldView>::empty());
        std::mem::swap(&mut fields, &mut self.fields);
        fields.insert(p, f);
        proof {
            assert(fields@.map_values(|f: Field| f@) =~= after.fields);
            assert forall|i: int| 0 <= i < after.fields.len() implies (
            #[trigger] after.fields[i]).wf() && after.fields[i].end() <= after.width by {
                if i < p {
                    assert(after.fields[i] == before.fields[i]);
                } else if i > p {
                    assert(after.fields[i] == before.fields[i - 1]);
                }
            }
            assert forall|i: int, j: int| 0 <= i < j < after.fields.len() implies (
            #[trigger] after.fields[i]).end() <= (#[trigger] after.fields[j]).bit_offset && after.fields[i].name
                != after.fields[j].name by {
                let a = if i < p { i } else { i - 1 };
                let b = if j < p { j } else { j - 1 };
                if i != p {
                    assert(after.fields[i] == before.fields[a]);
                    assert(!before.fields[a].overlaps(f@));
                }
                if j != p {
                    assert(after.fields[j] == before.fields[b]);
                    assert(!before.fields[b].overlaps(f@));
                }
                if i != p && j != p {
                    assert(before.fields[a].end() <= before.fields[b].bit_offset);
                }
            }
            assert(after.wf());
        }
        self.fields = fields;
        Ok(())
    }

    /// Takes the field called `name` out of the register.
    pub fn remove_field(&mut self, name: &str) -> (r: Result<Field, Error>)
        ensures
            final(self)@.wf(),
            match r {
                Ok(f) => old(self)@.has_field(name@) && f@ == old(self)@.fields[old(self)@.field_index(name@)] && final(self)@ == old(self)@.without_field(name@),
                Err(e) => e == Error::Lookup(Entity::Field) && !old(self)@.has_field(name@)
                    && final(self)@ == old(self)@,
            },
    {
        proof {
            use_type_invariant(&*self);
        }
        let i = match self.find_field(name) {
            Some(i) => i,
            None => {
                return Err(Error::Lookup(Entity::Field));
            },
        };
        let ghost before = self@;
        let ghost after = before.without_field(name@);
        let mut fields: Vec<Field> = Vec::new();
        assert(fields@.map_values(|f: Field| f@) =~= Seq::<FieldView>::empty());
        std::mem::swap(&mut fields, &mut self.fields);
        let f = fields.remove(i);
        proof {
            assert(fields@.map_values(|f: Field| f@) =~= after.fields);
            assert forall|k: int| 0 <= k < after.fields.len() implies (
            #[trigger] after.fields[k]).wf() && after.fields[k].end() <= after.width by {
                if k < i {
                    assert(after.fields[k] == before.fields[k]);
                } else {
                    assert(after.fields[k] == before.fields[k + 1]);
                }
            }
            assert forall|k: int, l: int| 0 <= k < l < after.fields.len() implies (
            #[trigger] after.fields[k]).end() <= (#[trigger] after.fields[l]).bit_offset && after.fields[k].name
                != after.fields[l].name by {
                let a = if k < i { k } else { k + 1 };
                let b = if l < i { l } else { l + 1 };
                assert(after.fields[k] == before.fields[a]);
                assert(after.fields[l] == before.fields[b]);
                assert(before.fields[a].end() <= before.fields[b].bit_offset);
            }
            assert(after.wf());
        }
        self.fields = fields;
        Ok(f)
    }
}

impl Register {
    /// Whether the fields other than the one at `i` admit `g`.
    fn admits_without(&self, i: usize, g: &Field) -> (r: bool)
        requires
            i < self@.fields.len(),
        ensures
            r == (RegisterView { fields: self@.fields.remove(i as int), ..self@ }).admits(g@),
    {
        proof {
            use_type_invariant(self);
        }
        g.validity();
        let ghost rest = RegisterView { fields: self@.fields.remove(i as int), ..self@ };
        if g.end() > self.width {
            return false;
        }
        let mut k: usize = 0;
        while k < self.fields.len()
            invariant
                k <= self.fields.len(),
                i < self@.fields.len(),
                rest == (RegisterView { fields: self@.fields.remove(i as int), ..self@ }),
                forall|j: int|
                    0 <= j < k && j != i ==> (#[trigger] self@.fields[j]).name != g@.name
                        && !self@.fields[j].overlaps(g@),
            decreases self.fields.len() - k,
        {
            if k != i {
                let taken = str_eq(self.fields[k].name(), g.name());
                let shared = self.fields[k].overlaps(g);
                if taken || shared {
                    proof {
                        let m = if k < i { k as int } else { k - 1 };
                        assert(rest.fields[m] == self@.fields[k as int]);
                        assert(rest.fields[m].name == g@.name || rest.fields[m].overlaps(g@));
                    }
                    return false;
                }
            }
            k += 1;
        }
        proof {
            assert forall|m: int| 0 <= m < rest.fields.len() implies (#[trigger] rest.fields[m]).name
                != g@.name && !rest.fields[m].overlaps(g@) by {
                let j = if m < i { m } else { m + 1 };
                assert(rest.fields[m] == self@.fields[j]);
            }
        }
        true
    }

    /// Puts `g` in the place of the field called `name`.
    fn replace_field(&mut self, name: &str, i: usize, g: Field) -> (r: Result<(), Error>)
        requires
            old(self)@.has_field(name@),
            i == old(self)@.field_index(name@),
            i < old(self)@.fields.len(),
        ensures
            final(self)@.wf(),
            match r {
                Ok(()) => old(self)@.replace_field(name@, g@) == Ok::<RegisterView, Error>(
                    final(self)@,
                ),
                Err(e) => old(self)@.replace_field(name@, g@) == Err::<RegisterView, Error>(e)
                    && final(self)@ == old(self)@,
            },
    {
        proof {
            use_type_invariant(&*self);
        }
        if !self.admits_without(i, &g) {
            return Err(Error::FieldOverlap);
        }
        let removed = self.remove_field(name);
        self.add_field(g)
    }

    /// Gives the field called `name` the width `bit_width`, if the field
    /// then still lies within the register and apart from the other fields.
    pub fn resize_field(&mut self, name: &str, bit_width: u32) -> (r: Result<(), Error>)
        ensures
            final(self)@.wf(),
            match r {
                Ok(()) => old(self)@.resize_field(name@, bit_width as nat) == Ok::<
                    RegisterView,
                    Error,
                >(final(self)@),
                Err(e) => old(self)@.resize_field(name@, bit_width as nat) == Err::<
                    RegisterView,
                    Error,
                >(e) && final(self)@ == old(self)@,
            },
    {
        proof {
            use_type_invariant(&*self);
        }
        let i = match self.find_field(name) {
            Some(i) => i,
            None => {
                return Err(Error::Lookup(Entity::Field));
            },
        };
        match self.fields[i].resized(bit_width) {
            Ok(g) => self.replace_field(name, i, g),
            Err(e) => Err(e),
        }
    }

    /// Moves the lowest bit of the field called `name` to `bit_offset`, if
    /// the field then still lies within the register and apart from the
    /// other fields.
    pub fn reposition_field(&mut self, name: &str, bit_offset: u32) -> (r: Result<(), Error>)
        ensures
            final(self)@.wf(),
            match r {
                Ok(()) => old(self)@.reposition_field(name@, bit_offset as nat) == Ok::<
                    RegisterView,
                    Error,
                >(final(self)@),
                Err(e) => old(self)@.reposition_field(name@, bit_offset as nat) == Err::<
                    RegisterView,
                    Error,
                >(e) && final(self)@ == old(self)@,
            },
    {
        proof {
            use_type_invariant(&*self);
        }
        let i = match self.find_field(name) {
            Some(i) => i,
            None => {
                return Err(Error::Lookup(Entity::Field));
            },
        };
        match self.fields[i].repositioned(bit_offset) {
            Ok(g) => self.replace_field(name, i, g),
            Err(e) => Err(e),
        }
    }
}

impl Register {
    /// Gives the field called `name` the name `new_name`, if no other field
    /// has it.
    pub fn rename_field(&mut self, name: &str, new_name: &str) -> (r: Result<(), Error>)
        ensures
            final(self)@.wf(),
            match r {
                Ok(()) => old(self)@.rename_field(name@, new_name@) == Ok::<RegisterView, Error>(
                    final(self)@,
                ),
                Err(e) => old(self)@.rename_field(name@, new_name@) == Err::<RegisterView, Error>(
                    e,
                ) && final(self)@ == old(self)@,
            },
    {
        proof {
            use_type_invariant(&*self);
        }
        let i = match self.find_field(name) {
            Some(i) => i,
            None => {
                return Err(Error::Lookup(Entity::Field));
            },
        };
        let g = self.fields[i].renamed(new_name);
        self.replace_field(name, i, g)
    }

    /// The same register under the name `name`.
    pub fn renamed(&self, name: &str) -> (r: Register)
        ensures
            r@ == (RegisterView { name: name@, ..self@ }),
    {
        let copy = self.clone();
        proof {
            use_type_invariant(&copy);
        }
        Register {
            name: name.to_owned(),
            offset: copy.offset,
            width: copy.width,
            access: copy.access,
            alias: copy.alias,
            fields: copy.fields,
        }
    }
}

impl Clone for Register {
    fn clone(&self) -> (r: Register)
        ensures
            r@ == self@,
    {
        proof {
            use_type_invariant(self);
        }
        let mut fields: Vec<Field> = Vec::new();
        let mut i: usize = 0;
        while i < self.fields.len()
            invariant
                i <= self.fields.len(),
                fields@.len() == i,
                forall|j: int| 0 <= j < i ==> (#[trigger] fields@[j])@ == self.fields@[j]@,
            decreases self.fields.len() - i,
        {
            fields.push(self.fields[i].clone());
            i += 1;
        }
        assert(fields@.map_values(|f: Field| f@) =~= self@.fields);
        Register {
            name: self.name.clone(),
            offset: self.offset,
            width: self.width,
            access: self.access,
            alias: self.alias,
            fields,
        }
    }
}

} // verus!
