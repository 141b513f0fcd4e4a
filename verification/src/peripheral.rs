//! A peripheral, with its registers in ascending address order.

use vstd::prelude::*;
use crate::error::{Entity, Error};
use crate::field::{Field, FieldView};
use crate::register::{Register, RegisterView};
use crate::text::str_eq;

verus! {

/// What an interrupt is: its name and its vector number.
pub struct InterruptView {
    pub name: Seq<char>,
    pub number: nat,
}

/// An interrupt of a peripheral.
#[derive(Debug)]
pub struct Interrupt {
    name: String,
    number: u32,
}

impl View for Interrupt {
    type V = InterruptView;

    closed spec fn view(&self) -> InterruptView {
        InterruptView { name: self.name@, number: self.number as nat }
    }
}

impl Interrupt {
    pub fn new(name: &str, number: u32) -> (r: Interrupt)
        ensures
            r@ == (InterruptView { name: name@, number: number as nat }),
    {
        Interrupt { name: name.to_owned(), number }
    }

    pub fn name(&self) -> (r: &str)
        ensures
            r@ == self@.name,
    {
        self.name.as_str()
    }

    pub fn number(&self) -> (r: u32)
        ensures
            r == self@.number,
    {
        self.number
    }
}

impl Clone for Interrupt {
    fn clone(&self) -> (r: Interrupt)
        ensures
            r@ == self@,
    {
        Interrupt { name: self.name.clone(), number: self.number }
    }
}

/// What a peripheral is: its name, its base address, its registers and its
/// interrupts.
pub struct PeripheralView {
    pub name: Seq<char>,
    pub base_address: nat,
    pub registers: Seq<RegisterView>,
    pub interrupts: Seq<InterruptView>,
}

impl PeripheralView {
    pub open spec fn has_register(self, name: Seq<char>) -> bool {
        exists|i: int| 0 <= i < self.registers.len() && (#[trigger] self.registers[i]).name == name
    }

    /// The position of the register called `name`, where there is one.
    pub open spec fn register_index(self, name: Seq<char>) -> int {
        choose|i: int| 0 <= i < self.registers.len() && (#[trigger] self.registers[i]).name == name
    }

    /// The register called `name`, where there is one.
    pub open spec fn register(self, name: Seq<char>) -> RegisterView {
        self.registers[self.register_index(name)]
    }

    /// Every register is well-formed; the registers stand in ascending order
    /// of their offsets; no name is used twice; and two registers occupy a
    /// common byte only if both are declared aliases.
    pub open spec fn wf(self) -> bool {
        &&& forall|i: int| 0 <= i < self.registers.len() ==> (#[trigger] self.registers[i]).wf()
        &&& forall|i: int, j: int|
            0 <= i < j < self.registers.len() ==> (#[trigger] self.registers[i]).offset <= (
            #[trigger] self.registers[j]).offset
        &&& forall|i: int, j: int|
            0 <= i < j < self.registers.len() ==> (#[trigger] self.registers[i]).name != (
            #[trigger] self.registers[j]).name
        &&& forall|i: int, j: int|
            0 <= i < j < self.registers.len() ==> (#[trigger] self.registers[i]).compatible(
                #[trigger] self.registers[j],
            )
    }

    /// Whether `r` can be added: its name is free, and it shares bytes only
    /// with aliases, being one itself.
    pub open spec fn admits(self, r: RegisterView) -> bool {
        &&& r.wf()
        &&& !self.has_register(r.name)
        &&& forall|i: int|
            0 <= i < self.registers.len() ==> (#[trigger] self.registers[i]).compatible(r)
    }

    /// `p` is where a register at `offset` belongs: behind every register at
    /// or below `offset`, before every other.
    pub open spec fn is_slot(self, offset: nat, p: int) -> bool {
        &&& 0 <= p <= self.registers.len()
        &&& forall|i: int| 0 <= i < p ==> (#[trigger] self.registers[i]).offset <= offset
        &&& forall|i: int| p <= i < self.registers.len() ==> (#[trigger] self.registers[i]).offset > offset
    }

    pub open spec fn slot(self, offset: nat) -> int {
        choose|p: int| self.is_slot(offset, p)
    }

    /// The peripheral with `r` added in its place.
    pub open spec fn with_register(self, r: RegisterView) -> PeripheralView {
        PeripheralView { registers: self.registers.insert(self.slot(r.offset), r), ..self }
    }

    /// The peripheral without the register called `name`.
    pub open spec fn without_register(self, name: Seq<char>) -> PeripheralView {
        PeripheralView { registers: self.registers.remove(self.register_index(name)), ..self }
    }

    /// Adding a register: refused unless the peripheral admits it.
    pub open spec fn add_register(self, r: RegisterView) -> Result<PeripheralView, Error> {
        if self.admits(r) {
            Ok(self.with_register(r))
        } else {
            Err(Error::DuplicateRegister)
        }
    }

    /// Removing the register called `name`.
    pub open spec fn remove_register(self, name: Seq<char>) -> Result<PeripheralView, Error> {
        if self.has_register(name) {
            Ok(self.without_register(name))
        } else {
            Err(Error::Lookup(Entity::Register))
        }
    }

    /// The peripheral in which the register called `name` has become what
    /// `change` gives for it.
    pub open spec fn change_register(
        self,
        name: Seq<char>,
        change: spec_fn(RegisterView) -> Result<RegisterView, Error>,
    ) -> Result<PeripheralView, Error> {
        if !self.has_register(name) {
            Err(Error::Lookup(Entity::Register))
        } else {
            match change(self.register(name)) {
                Ok(r) => Ok(
                    PeripheralView {
                        registers: self.registers.update(self.register_index(name), r),
                        ..self
                    },
                ),
                Err(e) => Err(e),
            }
        }
    }

    /// Adding `f` to the register called `register`.
    pub open spec fn add_field(self, register: Seq<char>, f: FieldView) -> Result<
        PeripheralView,
        Error,
    > {
        self.change_register(register, |r: RegisterView| r.add_field(f))
    }

    /// Resizing a field of the register called `register`.
    pub open spec fn resize_field(self, register: Seq<char>, field: Seq<char>, bit_width: nat) -> Result<
        PeripheralView,
        Error,
    > {
        self.change_register(register, |r: RegisterView| r.resize_field(field, bit_width))
    }

    /// Moving a field of the register called `register`.
    pub open spec fn reposition_field(
        self,
        register: Seq<char>,
        field: Seq<char>,
        bit_offset: nat,
    ) -> Result<PeripheralView, Error> {
        self.change_register(register, |r: RegisterView| r.reposition_field(field, bit_offset))
    }

    /// Giving a field of the register called `register` another name.
    pub open spec fn rename_field(
        self,
        register: Seq<char>,
        field: Seq<char>,
        new_name: Seq<char>,
    ) -> Result<PeripheralView, Error> {
        self.change_register(register, |r: RegisterView| r.rename_field(field, new_name))
    }

    /// Giving the register called `name` the name `new_name`: the other
    /// registers must admit it under that name.
    pub open spec fn rename_register(self, name: Seq<char>, new_name: Seq<char>) -> Result<
        PeripheralView,
        Error,
    > {
        let renamed = RegisterView { name: new_name, ..self.register(name) };
        if !self.has_register(name) {
            Err(Error::Lookup(Entity::Register))
        } else if !self.without_register(name).admits(renamed) {
            Err(Error::DuplicateRegister)
        } else {
            Ok(self.without_register(name).with_register(renamed))
        }
    }

    /// The peripheral with the first `n` registers of `parent` that it has
    /// no register of the same name for: what a peripheral that is derived
    /// from another takes from it.
    pub open spec fn inherit_registers(self, parent: PeripheralView, n: int) -> Result<
        PeripheralView,
        Error,
    >
        decreases n,
    {
        if n <= 0 {
            Ok(self)
        } else {
            match self.inherit_registers(parent, n - 1) {
                Ok(p) => if p.has_register(parent.registers[n - 1].name) {
                    Ok(p)
                } else {
                    p.add_register(parent.registers[n - 1])
                },
                Err(e) => Err(e),
            }
        }
    }

    /// In a well-formed peripheral a name finds one position only.
    pub proof fn lemma_register_index(self, name: Seq<char>, i: int)
        requires
            self.wf(),
            0 <= i < self.registers.len(),
            self.registers[i].name == name,
        ensures
            self.has_register(name),
            self.register_index(name) == i,
    {
        let k = self.register_index(name);
        assert(0 <= k < self.registers.len() && self.registers[k].name == name);
        if k < i {
            assert(self.registers[k].name != self.registers[i].name);
        } else if i < k {
            assert(self.registers[i].name != self.registers[k].name);
        }
    }

    /// There is one slot at most.
    pub proof fn lemma_slot(self, offset: nat, p: int)
        requires
            self.is_slot(offset, p),
        ensures
            self.slot(offset) == p,
    {
        let q = self.slot(offset);
        assert(self.is_slot(offset, q));
        if q < p {
            assert(self.registers[q].offset <= offset);
        } else if p < q {
            assert(self.registers[p].offset <= offset);
        }
    }

    /// A change that keeps a register's name, place, width and alias mark,
    /// and leaves it well-formed, leaves the peripheral well-formed.
    pub proof fn lemma_update_wf(self, i: int, r: RegisterView)
        requires
            self.wf(),
            0 <= i < self.registers.len(),
            r.wf(),
            r.name == self.registers[i].name,
            r.offset == self.registers[i].offset,
            r.width == self.registers[i].width,
            r.alias == self.registers[i].alias,
        ensures
            (PeripheralView { registers: self.registers.update(i, r), ..self }).wf(),
    {
        let after = PeripheralView { registers: self.registers.update(i, r), ..self };
        assert forall|a: int, b: int| 0 <= a < b < after.registers.len() implies (
        #[trigger] after.registers[a]).offset <= (#[trigger] after.registers[b]).offset
            && after.registers[a].name != after.registers[b].name && after.registers[a].compatible(
            after.registers[b],
        ) by {
            assert(self.registers[a].offset <= self.registers[b].offset);
            assert(self.registers[a].name != self.registers[b].name);
            assert(self.registers[a].compatible(self.registers[b]));
        }
    }

    /// Among registers in ascending order there is a place for every offset.
    proof fn lemma_place(self, offset: nat, n: int) -> (p: int)
        requires
            self.wf(),
            0 <= n <= self.registers.len(),
        ensures
            0 <= p <= n,
            forall|i: int| 0 <= i < p ==> (#[trigger] self.registers[i]).offset <= offset,
            forall|i: int| p <= i < n ==> (#[trigger] self.registers[i]).offset > offset,
        decreases n,
    {
        if n == 0 {
            0
        } else {
            let q = self.lemma_place(offset, n - 1);
            if self.registers[n - 1].offset <= offset {
                assert forall|i: int| 0 <= i < n implies (#[trigger] self.registers[i]).offset
                    <= offset by {
                    if i < n - 1 {
                        assert(self.registers[i].offset <= self.registers[n - 1].offset);
                    }
                }
                n
            } else {
                q
            }
        }
    }

    /// A well-formed peripheral has a slot for every offset.
    pub proof fn lemma_slot_exists(self, offset: nat)
        requires
            self.wf(),
        ensures
            self.is_slot(offset, self.slot(offset)),
    {
        let p = self.lemma_place(offset, self.registers.len() as int);
        assert(self.is_slot(offset, p));
    }

    /// A register that the peripheral admits leaves it well-formed; the
    /// peripheral then has the register, and every register it had, as it
    /// was.
    pub proof fn lemma_with_register(self, r: RegisterView)
        requires
            self.wf(),
            self.admits(r),
        ensures
            self.with_register(r).wf(),
            self.with_register(r).has_register(r.name),
            self.with_register(r).register(r.name) == r,
            forall|x: Seq<char>|
                self.has_register(x) ==> self.with_register(r).has_register(x)
                    && self.with_register(r).register(x) == self.register(x),
    {
        self.lemma_slot_exists(r.offset);
        let p = self.slot(r.offset);
        let after = self.with_register(r);
        assert forall|i: int| 0 <= i < after.registers.len() implies (
        #[trigger] after.registers[i]).wf() by {
            if i < p {
                assert(after.registers[i] == self.registers[i]);
            } else if i > p {
                assert(after.registers[i] == self.registers[i - 1]);
            }
        }
        assert forall|i: int, j: int| 0 <= i < j < after.registers.len() implies (
        #[trigger] after.registers[i]).offset <= (#[trigger] after.registers[j]).offset
            && after.registers[i].name != after.registers[j].name && after.registers[i].compatible(
            after.registers[j],
        ) by {
            let a = if i < p { i } else { i - 1 };
            let b = if j < p { j } else { j - 1 };
            if i != p {
                assert(after.registers[i] == self.registers[a]);
                assert(self.registers[a].compatible(r));
            }
            if j != p {
                assert(after.registers[j] == self.registers[b]);
                assert(self.registers[b].compatible(r));
            }
            if i != p && j != p {
                assert(self.registers[a].offset <= self.registers[b].offset);
                assert(self.registers[a].compatible(self.registers[b]));
            }
        }
        assert(after.registers[p] == r);
        after.lemma_register_index(r.name, p);
        assert forall|x: Seq<char>| self.has_register(x) implies after.has_register(x)
            && after.register(x) == self.register(x) by {
            let k = self.register_index(x);
            let m = if k < p { k } else { k + 1 };
            assert(after.registers[m] == self.registers[k]);
            after.lemma_register_index(x, m);
        }
    }

    /// Without one of its registers a peripheral is well-formed still, and
    /// has every other register it had, as it was.
    pub proof fn lemma_without_register(self, name: Seq<char>)
        requires
            self.wf(),
            self.has_register(name),
        ensures
            self.without_register(name).wf(),
            forall|x: Seq<char>|
                x != name && self.has_register(x) ==> self.without_register(name).has_register(x)
                    && self.without_register(name).register(x) == self.register(x),
    {
        let i = self.register_index(name);
        let after = self.without_register(name);
        assert forall|k: int| 0 <= k < after.registers.len() implies (
        #[trigger] after.registers[k]).wf() by {
            if k < i {
                assert(after.registers[k] == self.registers[k]);
            } else {
                assert(after.registers[k] == self.registers[k + 1]);
            }
        }
        assert forall|k: int, l: int| 0 <= k < l < after.registers.len() implies (
        #[trigger] after.registers[k]).offset <= (#[trigger] after.registers[l]).offset
            && after.registers[k].name != after.registers[l].name && after.registers[k].compatible(
            after.registers[l],
        ) by {
            let a = if k < i { k } else { k + 1 };
            let b = if l < i { l } else { l + 1 };
            assert(after.registers[k] == self.registers[a]);
            assert(after.registers[l] == self.registers[b]);
            assert(self.registers[a].offset <= self.registers[b].offset);
            assert(self.registers[a].compatible(self.registers[b]));
        }
        assert forall|x: Seq<char>| x != name && self.has_register(x) implies after.has_register(x)
            && after.register(x) == self.register(x) by {
            let k = self.register_index(x);
            let m = if k < i { k } else { k - 1 };
            assert(after.registers[m] == self.registers[k]);
            after.lemma_register_index(x, m);
        }
    }

    /// A change to one register that keeps its name, place, width and alias
    /// mark leaves the peripheral with the same register names, and every
    /// other register as it was.
    pub proof fn lemma_changed_register(self, name: Seq<char>, r: RegisterView)
        requires
            self.wf(),
            self.has_register(name),
            r.wf(),
            r.name == name,
            r.offset == self.register(name).offset,
            r.width == self.register(name).width,
            r.alias == self.register(name).alias,
        ensures
            (PeripheralView {
                registers: self.registers.update(self.register_index(name), r),
                ..self
            }).wf(),
            forall|x: Seq<char>|
                self.has_register(x) ==> (#[trigger] (PeripheralView {
                    registers: self.registers.update(self.register_index(name), r),
                    ..self
                }).has_register(x)),
            forall|x: Seq<char>|
                x != name && self.has_register(x) ==> (#[trigger] (PeripheralView {
                    registers: self.registers.update(self.register_index(name), r),
                    ..self
                }).register(x)) == self.register(x),
            (PeripheralView {
                registers: self.registers.update(self.register_index(name), r),
                ..self
            }).register(name) == r,
    {
        let i = self.register_index(name);
        let after = PeripheralView { registers: self.registers.update(i, r), ..self };
        self.lemma_update_wf(i, r);
        assert(after.registers[i] == r);
        after.lemma_register_index(name, i);
        assert forall|x: Seq<char>| self.has_register(x) implies #[trigger] after.has_register(x) by {
            let k = self.register_index(x);
            assert(after.registers[k].name == x);
        }
        assert forall|x: Seq<char>| x != name && self.has_register(x) implies #[trigger] after.register(
            x,
        ) == self.register(x) by {
            let k = self.register_index(x);
            assert(after.registers[k] == self.registers[k]);
            after.lemma_register_index(x, k);
        }
    }

    /// No two registers of a well-formed peripheral share a byte offset,
    /// unless both are declared aliases.
    pub proof fn lemma_unique_addressing(self)
        requires
            self.wf(),
        ensures
            forall|i: int, j: int|
                0 <= i < self.registers.len() && 0 <= j < self.registers.len() && i != j && (
                #[trigger] self.registers[i]).offset == (#[trigger] self.registers[j]).offset
                    ==> self.registers[i].alias && self.registers[j].alias,
    {
        assert forall|i: int, j: int|
            0 <= i < self.registers.len() && 0 <= j < self.registers.len() && i != j && (
            #[trigger] self.registers[i]).offset == (#[trigger] self.registers[j]).offset implies self.registers[i].alias
            && self.registers[j].alias by {
            if i < j {
                assert(self.registers[i].compatible(self.registers[j]));
            } else {
                assert(self.registers[j].compatible(self.registers[i]));
            }
            assert(self.registers[i].wf() && self.registers[j].wf());
        }
    }
}

/// A peripheral. Every value is well-formed.
#[derive(Debug)]
pub struct Peripheral {
    name: String,
    base_address: u32,
    registers: Vec<Register>,
    interrupts: Vec<Interrupt>,
}

impl View for Peripheral {
    type V = PeripheralView;

    closed spec fn view(&self) -> PeripheralView {
        PeripheralView {
            name: self.name@,
            base_address: self.base_address as nat,
            registers: self.registers@.map_values(|r: Register| r@),
            interrupts: self.interrupts@.map_values(|i: Interrupt| i@),
        }
    }
}

impl Peripheral {
    #[verifier::type_invariant]
    spec fn inv(&self) -> bool {
        self@.wf()
    }

    /// A peripheral without registers and interrupts.
    pub fn new(name: &str, base_address: u32) -> (r: Peripheral)
        ensures
            r@ == (PeripheralView {
                name: name@,
                base_address: base_address as nat,
                registers: Seq::empty(),
                interrupts: Seq::empty(),
            }),
            r@.wf(),
    {
        let registers: Vec<Register> = Vec::new();
        let interrupts: Vec<Interrupt> = Vec::new();
        assert(registers@.map_values(|r: Register| r@) =~= Seq::<RegisterView>::empty());
        assert(interrupts@.map_values(|i: Interrupt| i@) =~= Seq::<InterruptView>::empty());
        Peripheral { name: name.to_owned(), base_address, registers, interrupts }
    }

    /// States what holds of every peripheral.
    pub fn validity(&self)
        ensures
            self@.wf(),
    {
        proof {
            use_type_invariant(self);
        }
    }

    pub fn name(&self) -> (r: &str)
        ensures
            r@ == self@.name,
    {
        self.name.as_str()
    }

    pub fn base_address(&self) -> (r: u32)
        ensures
            r == self@.base_address,
    {
        self.base_address
    }

    pub fn register_count(&self) -> (r: usize)
        ensures
            r == self@.registers.len(),
    {
        self.registers.len()
    }

    /// The register at position `i`, in ascending address order.
    pub fn register_at(&self, i: usize) -> (r: &Register)
        requires
            i < self@.registers.len(),
        ensures
            r@ == self@.registers[i as int],
    {
        &self.registers[i]
    }

    pub fn interrupt_count(&self) -> (r: usize)
        ensures
            r == self@.interrupts.len(),
    {
        self.interrupts.len()
    }

    pub fn interrupt_at(&self, i: usize) -> (r: &Interrupt)
        requires
            i < self@.interrupts.len(),
        ensures
            r@ == self@.interrupts[i as int],
    {
        &self.interrupts[i]
    }

    /// Appends an interrupt.
    pub fn add_interrupt(&mut self, interrupt: Interrupt)
        ensures
            final(self)@ == (PeripheralView {
                interrupts: old(self)@.interrupts.push(interrupt@),
                ..old(self)@
            }),
    {
        proof {
            use_type_invariant(&*self);
        }
        let ghost before = self@;
        let mut interrupts: Vec<Interrupt> = Vec::new();
        assert(interrupts@.map_values(|i: Interrupt| i@) =~= Seq::<InterruptView>::empty());
        std::mem::swap(&mut interrupts, &mut self.interrupts);
        interrupts.push(interrupt);
        assert(interrupts@.map_values(|i: Interrupt| i@) =~= before.interrupts.push(interrupt@));
        self.interrupts = interrupts;
    }

    /// The position of the register called `name`.
    pub fn find_register(&self, name: &str) -> (r: Option<usize>)
        ensures
            match r {
                Some(i) => self@.has_register(name@) && i == self@.register_index(name@) && i
                    < self@.registers.len() && self@.registers[i as int].name == name@,
                None => !self@.has_register(name@),
            },
    {
        proof {
            use_type_invariant(self);
        }
        let mut i: usize = 0;
        while i < self.registers.len()
            invariant
                i <= self.registers.len(),
                self@.wf(),
                forall|j: int| 0 <= j < i ==> (#[trigger] self@.registers[j]).name != name@,
            decreases self.registers.len() - i,
        {
            if str_eq(self.registers[i].name(), name) {
                proof {
                    self@.lemma_register_index(name@, i as int);
                }
                return Some(i);
            }
            i += 1;
        }
        None
    }

    /// The register called `name`.
    pub fn register(&self, name: &str) -> (r: Result<&Register, Error>)
        ensures
            match r {
                Ok(reg) => self@.has_register(name@) && reg@ == self@.register(name@),
                Err(e) => e == Error::Lookup(Entity::Register) && !self@.has_register(name@),
            },
    {
        match self.find_register(name) {
            Some(i) => Ok(&self.registers[i]),
            None => Err(Error::Lookup(Entity::Register)),
        }
    }

    /// Whether `r` can be added.
    pub fn admits(&self, r: &Register) -> (ok: bool)
        ensures
            ok == self@.admits(r@),
    {
        proof {
            use_type_invariant(self);
        }
        r.validity();
        let mut i: usize = 0;
        while i < self.registers.len()
            invariant
                i <= self.registers.len(),
                forall|j: int|
                    0 <= j < i ==> (#[trigger] self@.registers[j]).name != r@.name
                        && self@.registers[j].compatible(r@),
            decreases self.registers.len() - i,
        {
            let taken = str_eq(self.registers[i].name(), r.name());
            let apart = self.registers[i].compatible(r);
            if taken || !apart {
                assert((self@.registers[i as int]).name == r@.name || !(self@.registers[i as int]).compatible(
                    r@,
                ));
                return false;
            }
            i += 1;
        }
        true
    }

    /// Adds `r` in its place in the address order, unless the peripheral
    /// does not admit it.
    pub fn add_register(&mut self, r: Register) -> (res: Result<(), Error>)
        ensures
            final(self)@.wf(),
            match res {
                Ok(()) => old(self)@.add_register(r@) == Ok::<PeripheralView, Error>(final(self)@),
                Err(e) => old(self)@.add_register(r@) == Err::<PeripheralView, Error>(e) && final(self)@
                    == old(self)@,
            },
    {
        proof {
            use_type_invariant(&*self);
        }
        r.validity();
        if !self.admits(&r) {
            return Err(Error::DuplicateRegister);
        }
        let mut p: usize = 0;
        while p < self.registers.len() && self.registers[p].offset() <= r.offset()
            invariant
                p <= self.registers.len(),
                self@.wf(),
                forall|j: int| 0 <= j < p ==> (#[trigger] self@.registers[j]).offset <= r@.offset,
            decreases self.registers.len() - p,
        {
            p += 1;
        }
        proof {
            assert forall|i: int| p <= i < self@.registers.len() implies (
            #[trigger] self@.registers[i]).offset > r@.offset by {
                if p < i {
                    assert(self@.registers[p as int].offset <= self@.registers[i].offset);
                }
            }
            self@.lemma_slot(r@.offset, p as int);
        }
        let ghost before = self@;
        let ghost after = before.with_register(r@);
        let mut registers: Vec<Register> = Vec::new();
        assert(registers@.map_values(|r: Register| r@) =~= Seq::<RegisterView>::empty());
        std::mem::swap(&mut registers, &mut self.registers);
        registers.insert(p, r);
        proof {
            assert(registers@.map_values(|r: Register| r@) =~= after.registers);
            assert forall|i: int| 0 <= i < after.registers.len() implies (
            #[trigger] after.registers[i]).wf() by {
                if i < p {
                    assert(after.registers[i] == before.registers[i]);
                } else if i > p {
                    assert(after.registers[i] == before.registers[i - 1]);
                }
            }
            assert forall|i: int, j: int| 0 <= i < j < after.registers.len() implies (
            #[trigger] after.registers[i]).offset <= (#[trigger] after.registers[j]).offset
                && after.registers[i].name != after.registers[j].name && after.registers[i].compatible(
                after.registers[j],
            ) by {
                let a = if i < p { i } else { i - 1 };
                let b = if j < p { j } else { j - 1 };
                if i != p {
                    assert(after.registers[i] == before.registers[a]);
                    assert(before.registers[a].compatible(r@));
                }
                if j != p {
                    assert(after.registers[j] == before.registers[b]);
                    assert(before.registers[b].compatible(r@));
                }
                if i != p && j != p {
                    assert(before.registers[a].offset <= before.registers[b].offset);
                    assert(before.registers[a].compatible(before.registers[b]));
                }
            }
            assert(after.wf());
        }
        self.registers = registers;
        Ok(())
    }

    /// Takes the register called `name` out of the peripheral.
    pub fn remove_register(&mut self, name: &str) -> (res: Result<Register, Error>)
        ensures
            final(self)@.wf(),
            match res {
                Ok(r) => old(self)@.remove_register(name@) == Ok::<PeripheralView, Error>(
                    final(self)@,
                ) && r@ == old(self)@.register(name@),
                Err(e) => old(self)@.remove_register(name@) == Err::<PeripheralView, Error>(e)
                    && final(self)@ == old(self)@,
            },
    {
        proof {
            use_type_invariant(&*self);
        }
        let i = match self.find_register(name) {
            Some(i) => i,
            None => {
                return Err(Error::Lookup(Entity::Register));
            },
        };
        let ghost before = self@;
        let ghost after = before.without_register(name@);
        let mut registers: Vec<Register> = Vec::new();
        assert(registers@.map_values(|r: Register| r@) =~= Seq::<RegisterView>::empty());
        std::mem::swap(&mut registers, &mut self.registers);
        let r = registers.remove(i);
        proof {
            assert(registers@.map_values(|r: Register| r@) =~= after.registers);
            assert forall|k: int| 0 <= k < after.registers.len() implies (
            #[trigger] after.registers[k]).wf() by {
                if k < i {
                    assert(after.registers[k] == before.registers[k]);
                } else {
                    assert(after.registers[k] == before.registers[k + 1]);
                }
            }
            assert forall|k: int, l: int| 0 <= k < l < after.registers.len() implies (
            #[trigger] after.registers[k]).offset <= (#[trigger] after.registers[l]).offset
                && after.registers[k].name != after.registers[l].name && after.registers[k].compatible(
                after.registers[l],
            ) by {
                let a = if k < i { k } else { k + 1 };
                let b = if l < i { l } else { l + 1 };
                assert(after.registers[k] == before.registers[a]);
                assert(after.registers[l] == before.registers[b]);
                assert(before.registers[a].offset <= before.registers[b].offset);
                assert(before.registers[a].compatible(before.registers[b]));
            }
            assert(after.wf());
        }
        self.registers = registers;
        Ok(r)
    }

    /// Adds `f` to the register called `register`.
    pub fn add_field(&mut self, register: &str, f: Field) -> (res: Result<(), Error>)
        ensures
            final(self)@.wf(),
            match res {
                Ok(()) => old(self)@.add_field(register@, f@) == Ok::<PeripheralView, Error>(
                    final(self)@,
                ),
                Err(e) => old(self)@.add_field(register@, f@) == Err::<PeripheralView, Error>(e)
                    && final(self)@ == old(self)@,
            },
    {
        proof {
            use_type_invariant(&*self);
        }
        let i = match self.find_register(register) {
            Some(i) => i,
            None => {
                return Err(Error::Lookup(Entity::Register));
            },
        };
        let ghost before = self@;
        let mut registers: Vec<Register> = Vec::new();
        assert(registers@.map_values(|r: Register| r@) =~= Seq::<RegisterView>::empty());
        std::mem::swap(&mut registers, &mut self.registers);
        let res = registers[i].add_field(f);
        proof {
            let r = registers@[i as int]@;
            assert(registers@.map_values(|r: Register| r@) =~= before.registers.update(i as int, r));
            before.lemma_update_wf(i as int, r);
            if res is Err {
                assert(before.registers.update(i as int, r) =~= before.registers);
            }
        }
        self.registers = registers;
        res
    }

    /// Resizes a field of the register called `register`.
    pub fn resize_field(&mut self, register: &str, field: &str, bit_width: u32) -> (res: Result<
        (),
        Error,
    >)
        ensures
            final(self)@.wf(),
            match res {
                Ok(()) => old(self)@.resize_field(register@, field@, bit_width as nat) == Ok::<
                    PeripheralView,
                    Error,
                >(final(self)@),
                Err(e) => old(self)@.resize_field(register@, field@, bit_width as nat) == Err::<
                    PeripheralView,
                    Error,
                >(e) && final(self)@ == old(self)@,
            },
    {
        proof {
            use_type_invariant(&*self);
        }
        let i = match self.find_register(register) {
            Some(i) => i,
            None => {
                return Err(Error::Lookup(Entity::Register));
            },
        };
        let ghost before = self@;
        let mut registers: Vec<Register> = Vec::new();
        assert(registers@.map_values(|r: Register| r@) =~= Seq::<RegisterView>::empty());
        std::mem::swap(&mut registers, &mut self.registers);
        let res = registers[i].resize_field(field, bit_width);
        proof {
            let r = registers@[i as int]@;
            assert(registers@.map_values(|r: Register| r@) =~= before.registers.update(i as int, r));
            before.lemma_update_wf(i as int, r);
            if res is Err {
                assert(before.registers.update(i as int, r) =~= before.registers);
            }
        }
        self.registers = registers;
        res
    }

    /// Moves a field of the register called `register`.
    pub fn reposition_field(&mut self, register: &str, field: &str, bit_offset: u32) -> (res: Result<
        (),
        Error,
    >)
        ensures
            final(self)@.wf(),
            match res {
                Ok(()) => old(self)@.reposition_field(register@, field@, bit_offset as nat) == Ok::<
                    PeripheralView,
                    Error,
                >(final(self)@),
                Err(e) => old(self)@.reposition_field(register@, field@, bit_offset as nat)
                    == Err::<PeripheralView, Error>(e) && final(self)@ == old(self)@,
            },
    {
        proof {
            use_type_invariant(&*self);
        }
        let i = match self.find_register(register) {
            Some(i) => i,
            None => {
                return Err(Error::Lookup(Entity::Register));
            },
        };
        let ghost before = self@;
        let mut registers: Vec<Register> = Vec::new();
        assert(registers@.map_values(|r: Register| r@) =~= Seq::<RegisterView>::empty());
        std::mem::swap(&mut registers, &mut self.registers);
        let res = registers[i].reposition_field(field, bit_offset);
        proof {
            let r = registers@[i as int]@;
            assert(registers@.map_values(|r: Register| r@) =~= before.registers.update(i as int, r));
            before.lemma_update_wf(i as int, r);
            if res is Err {
                assert(before.registers.update(i as int, r) =~= before.registers);
            }
        }
        self.registers = registers;
        res
    }
}

impl Peripheral {
    /// Gives a field of the register called `register` another name.
    pub fn rename_field(&mut self, register: &str, field: &str, new_name: &str) -> (res: Result<
        (),
        Error,
    >)
        ensures
            final(self)@.wf(),
            match res {
                Ok(()) => old(self)@.rename_field(register@, field@, new_name@) == Ok::<
                    PeripheralView,
                    Error,
                >(final(self)@),
                Err(e) => old(self)@.rename_field(register@, field@, new_name@) == Err::<
                    PeripheralView,
                    Error,
                >(e) && final(self)@ == old(self)@,
            },
    {
        proof {
            use_type_invariant(&*self);
        }
        let i = match self.find_register(register) {
            Some(i) => i,
            None => {
                return Err(Error::Lookup(Entity::Register));
            },
        };
        let ghost before = self@;
        let mut registers: Vec<Register> = Vec::new();
        assert(registers@.map_values(|r: Register| r@) =~= Seq::<RegisterView>::empty());
        std::mem::swap(&mut registers, &mut self.registers);
        let res = registers[i].rename_field(field, new_name);
        proof {
            let r = registers@[i as int]@;
            assert(registers@.map_values(|r: Register| r@) =~= before.registers.update(i as int, r));
            before.lemma_update_wf(i as int, r);
            if res is Err {
                assert(before.registers.update(i as int, r) =~= before.registers);
            }
        }
        self.registers = registers;
        res
    }

    /// Whether the registers other than the one at `i` admit `r`.
    fn admits_without(&self, i: usize, r: &Register) -> (ok: bool)
        requires
            i < self@.registers.len(),
        ensures
            ok == (PeripheralView { registers: self@.registers.remove(i as int), ..self@ }).admits(
                r@,
            ),
    {
        proof {
            use_type_invariant(self);
        }
        r.validity();
        let ghost rest = PeripheralView { registers: self@.registers.remove(i as int), ..self@ };
        let mut k: usize = 0;
        while k < self.registers.len()
            invariant
                k <= self.registers.len(),
                i < self@.registers.len(),
                rest == (PeripheralView { registers: self@.registers.remove(i as int), ..self@ }),
                forall|j: int|
                    0 <= j < k && j != i ==> (#[trigger] self@.registers[j]).name != r@.name
                        && self@.registers[j].compatible(r@),
            decreases self.registers.len() - k,
        {
            if k != i {
                let taken = str_eq(self.registers[k].name(), r.name());
                let apart = self.registers[k].compatible(r);
                if taken || !apart {
                    proof {
                        let m = if k < i { k as int } else { k - 1 };
                        assert(rest.registers[m] == self@.registers[k as int]);
                        assert(rest.registers[m].name == r@.name || !rest.registers[m].compatible(
                            r@,
                        ));
                    }
                    return false;
                }
            }
            k += 1;
        }
        proof {
            assert forall|m: int| 0 <= m < rest.registers.len() implies (
            #[trigger] rest.registers[m]).name != r@.name && rest.registers[m].compatible(r@) by {
                let j = if m < i { m } else { m + 1 };
                assert(rest.registers[m] == self@.registers[j]);
            }
        }
        true
    }

    /// Gives the register called `name` the name `new_name`, if no other
    /// register has it.
    pub fn rename_register(&mut self, name: &str, new_name: &str) -> (res: Result<(), Error>)
        ensures
            final(self)@.wf(),
            match res {
                Ok(()) => old(self)@.rename_register(name@, new_name@) == Ok::<
                    PeripheralView,
                    Error,
                >(final(self)@),
                Err(e) => old(self)@.rename_register(name@, new_name@) == Err::<
                    PeripheralView,
                    Error,
                >(e) && final(self)@ == old(self)@,
            },
    {
        proof {
            use_type_invariant(&*self);
        }
        let i = match self.find_register(name) {
            Some(i) => i,
            None => {
                return Err(Error::Lookup(Entity::Register));
            },
        };
        let renamed = self.registers[i].renamed(new_name);
        if !self.admits_without(i, &renamed) {
            return Err(Error::DuplicateRegister);
        }
        let removed = self.remove_register(name);
        self.add_register(renamed)
    }
}

impl Peripheral {
    /// Takes from `parent` every register that the peripheral has no
    /// register of the same name for, all or none: if one of them cannot be
    /// added, the peripheral is as it was.
    pub fn inherit_registers(&mut self, parent: &Peripheral) -> (res: Result<(), Error>)
        ensures
            final(self)@.wf(),
            match res {
                Ok(()) => old(self)@.inherit_registers(parent@, parent@.registers.len() as int)
                    == Ok::<PeripheralView, Error>(final(self)@),
                Err(e) => old(self)@.inherit_registers(parent@, parent@.registers.len() as int)
                    == Err::<PeripheralView, Error>(e) && final(self)@ == old(self)@,
            },
    {
        proof {
            use_type_invariant(&*self);
        }
        let mut grown = self.clone();
        let mut n: usize = 0;
        while n < parent.register_count()
            invariant
                n <= parent@.registers.len(),
                old(self)@.inherit_registers(parent@, n as int) == Ok::<PeripheralView, Error>(
                    grown@,
                ),
                *self == *old(self),
                self@.wf(),
            decreases parent@.registers.len() - n,
        {
            let r = parent.register_at(n);
            if grown.find_register(r.name()).is_none() {
                match grown.add_register(r.clone()) {
                    Ok(()) => {},
                    Err(e) => {
                        assert(old(self)@.inherit_registers(parent@, n + 1) is Err);
                        proof {
                            lemma_inherit_fails(old(self)@, parent@, n + 1, parent@.registers.len() as int);
                        }
                        return Err(e);
                    },
                }
            }
            n += 1;
        }
        proof {
            use_type_invariant(&grown);
        }
        *self = grown;
        Ok(())
    }
}

/// Once a register of the parent cannot be added, nothing is inherited.
proof fn lemma_inherit_fails(p: PeripheralView, parent: PeripheralView, n: int, m: int)
    requires
        n <= m,
        p.inherit_registers(parent, n) is Err,
    ensures
        p.inherit_registers(parent, m) == p.inherit_registers(parent, n),
    decreases m - n,
{
    if n < m {
        lemma_inherit_fails(p, parent, n, m - 1);
    }
}

impl Clone for Peripheral {
    fn clone(&self) -> (r: Peripheral)
        ensures
            r@ == self@,
    {
        proof {
            use_type_invariant(self);
        }
        let mut registers: Vec<Register> = Vec::new();
        let mut i: usize = 0;
        while i < self.registers.len()
            invariant
                i <= self.registers.len(),
                registers@.len() == i,
                forall|j: int| 0 <= j < i ==> (#[trigger] registers@[j])@ == self.registers@[j]@,
            decreases self.registers.len() - i,
        {
            registers.push(self.registers[i].clone());
            i += 1;
        }
        let mut interrupts: Vec<Interrupt> = Vec::new();
        let mut k: usize = 0;
        while k < self.interrupts.len()
            invariant
                k <= self.interrupts.len(),
                interrupts@.len() == k,
                forall|j: int| 0 <= j < k ==> (#[trigger] interrupts@[j])@ == self.interrupts@[j]@,
            decreases self.interrupts.len() - k,
        {
            interrupts.push(self.interrupts[k].clone());
            k += 1;
        }
        assert(registers@.map_values(|r: Register| r@) =~= self@.registers);
        assert(interrupts@.map_values(|i: Interrupt| i@) =~= self@.interrupts);
        Peripheral { name: self.name.clone(), base_address: self.base_address, registers, interrupts }
    }
}

} // verus!
