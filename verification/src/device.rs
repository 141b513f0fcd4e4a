//! A device: its peripherals in ascending order of their base addresses.

use vstd::prelude::*;
use crate::error::{Entity, Error};
use crate::field::{Field, FieldView};
use crate::peripheral::{Peripheral, PeripheralView};
use crate::register::{Register, RegisterView};
use crate::text::str_eq;

verus! {

/// What a device is: its name and its peripherals.
pub struct DeviceView {
    pub name: Seq<char>,
    pub peripherals: Seq<PeripheralView>,
}

impl DeviceView {
    pub open spec fn has_peripheral(self, name: Seq<char>) -> bool {
        exists|i: int|
            0 <= i < self.peripherals.len() && (#[trigger] self.peripherals[i]).name == name
    }

    /// The position of the peripheral called `name`, where there is one.
    pub open spec fn peripheral_index(self, name: Seq<char>) -> int {
        choose|i: int|
            0 <= i < self.peripherals.len() && (#[trigger] self.peripherals[i]).name == name
    }

    /// The peripheral called `name`, where there is one.
    pub open spec fn peripheral(self, name: Seq<char>) -> PeripheralView {
        self.peripherals[self.peripheral_index(name)]
    }

    /// Every peripheral is well-formed; the peripherals stand in ascending
    /// order of their base addresses, which differ; no name is used twice.
    pub open spec fn wf(self) -> bool {
        &&& forall|i: int| 0 <= i < self.peripherals.len() ==> (#[trigger] self.peripherals[i]).wf()
        &&& forall|i: int, j: int|
            0 <= i < j < self.peripherals.len() ==> (#[trigger] self.peripherals[i]).base_address < (
            #[trigger] self.peripherals[j]).base_address
        &&& forall|i: int, j: int|
            0 <= i < j < self.peripherals.len() ==> (#[trigger] self.peripherals[i]).name != (
            #[trigger] self.peripherals[j]).name
    }

    /// Whether `p` can be added: its name and its base address are free.
    pub open spec fn admits(self, p: PeripheralView) -> bool {
        &&& p.wf()
        &&& forall|i: int|
            0 <= i < self.peripherals.len() ==> (#[trigger] self.peripherals[i]).name != p.name
                && self.peripherals[i].base_address != p.base_address
    }

    /// `k` is where a peripheral at `base` belongs.
    pub open spec fn is_slot(self, base: nat, k: int) -> bool {
        &&& 0 <= k <= self.peripherals.len()
        &&& forall|i: int| 0 <= i < k ==> (#[trigger] self.peripherals[i]).base_address <= base
        &&& forall|i: int|
            k <= i < self.peripherals.len() ==> (#[trigger] self.peripherals[i]).base_address > base
    }

    pub open spec fn slot(self, base: nat) -> int {
        choose|k: int| self.is_slot(base, k)
    }

    /// The device with `p` added in its place.
    pub open spec fn with_peripheral(self, p: PeripheralView) -> DeviceView {
        DeviceView { peripherals: self.peripherals.insert(self.slot(p.base_address), p), ..self }
    }

    /// Adding a peripheral: refused unless the device admits it.
    pub open spec fn add_peripheral(self, p: PeripheralView) -> Result<DeviceView, Error> {
        if self.admits(p) {
            Ok(self.with_peripheral(p))
        } else {
            Err(Error::DuplicatePeripheral)
        }
    }

    /// The device in which the peripheral called `name` has become what
    /// `change` gives for it.
    pub open spec fn change_peripheral(
        self,
        name: Seq<char>,
        change: spec_fn(PeripheralView) -> Result<PeripheralView, Error>,
    ) -> Result<DeviceView, Error> {
        if !self.has_peripheral(name) {
            Err(Error::Lookup(Entity::Peripheral))
        } else {
            match change(self.peripheral(name)) {
                Ok(p) => Ok(
                    DeviceView {
                        peripherals: self.peripherals.update(self.peripheral_index(name), p),
                        ..self
                    },
                ),
                Err(e) => Err(e),
            }
        }
    }

    /// Adding `r` to the peripheral called `peripheral`.
    pub open spec fn add_register(self, peripheral: Seq<char>, r: RegisterView) -> Result<
        DeviceView,
        Error,
    > {
        self.change_peripheral(peripheral, |p: PeripheralView| p.add_register(r))
    }

    /// Removing the register called `register` from a peripheral.
    pub open spec fn remove_register(self, peripheral: Seq<char>, register: Seq<char>) -> Result<
        DeviceView,
        Error,
    > {
        self.change_peripheral(peripheral, |p: PeripheralView| p.remove_register(register))
    }

    /// Adding `f` to a register of a peripheral.
    pub open spec fn add_field(self, peripheral: Seq<char>, register: Seq<char>, f: FieldView) -> Result<
        DeviceView,
        Error,
    > {
        self.change_peripheral(peripheral, |p: PeripheralView| p.add_field(register, f))
    }

    /// Resizing a field.
    pub open spec fn resize_field(
        self,
        peripheral: Seq<char>,
        register: Seq<char>,
        field: Seq<char>,
        bit_width: nat,
    ) -> Result<DeviceView, Error> {
        self.change_peripheral(
            peripheral,
            |p: PeripheralView| p.resize_field(register, field, bit_width),
        )
    }

    /// Moving a field.
    pub open spec fn reposition_field(
        self,
        peripheral: Seq<char>,
        register: Seq<char>,
        field: Seq<char>,
        bit_offset: nat,
    ) -> Result<DeviceView, Error> {
        self.change_peripheral(
            peripheral,
            |p: PeripheralView| p.reposition_field(register, field, bit_offset),
        )
    }

    /// Giving a register another name.
    pub open spec fn rename_register(
        self,
        peripheral: Seq<char>,
        register: Seq<char>,
        new_name: Seq<char>,
    ) -> Result<DeviceView, Error> {
        self.change_peripheral(
            peripheral,
            |p: PeripheralView| p.rename_register(register, new_name),
        )
    }

    /// Giving a field another name.
    pub open spec fn rename_field(
        self,
        peripheral: Seq<char>,
        register: Seq<char>,
        field: Seq<char>,
        new_name: Seq<char>,
    ) -> Result<DeviceView, Error> {
        self.change_peripheral(
            peripheral,
            |p: PeripheralView| p.rename_field(register, field, new_name),
        )
    }

    /// In a well-formed device a name finds one position only.
    pub proof fn lemma_peripheral_index(self, name: Seq<char>, i: int)
        requires
            self.wf(),
            0 <= i < self.peripherals.len(),
            self.peripherals[i].name == name,
        ensures
            self.has_peripheral(name),
            self.peripheral_index(name) == i,
    {
        let k = self.peripheral_index(name);
        assert(0 <= k < self.peripherals.len() && self.peripherals[k].name == name);
        if k < i {
            assert(self.peripherals[k].name != self.peripherals[i].name);
        } else if i < k {
            assert(self.peripherals[i].name != self.peripherals[k].name);
        }
    }

    /// There is one slot at most.
    pub proof fn lemma_slot(self, base: nat, k: int)
        requires
            self.is_slot(base, k),
        ensures
            self.slot(base) == k,
    {
        let q = self.slot(base);
        assert(self.is_slot(base, q));
        if q < k {
            assert(self.peripherals[q].base_address <= base);
        } else if k < q {
            assert(self.peripherals[k].base_address <= base);
        }
    }

    /// Among peripherals in ascending order there is a place for every base
    /// address.
    proof fn lemma_place(self, base: nat, n: int) -> (k: int)
        requires
            self.wf(),
            0 <= n <= self.peripherals.len(),
        ensures
            0 <= k <= n,
            forall|i: int| 0 <= i < k ==> (#[trigger] self.peripherals[i]).base_address <= base,
            forall|i: int| k <= i < n ==> (#[trigger] self.peripherals[i]).base_address > base,
        decreases n,
    {
        if n == 0 {
            0
        } else {
            let q = self.lemma_place(base, n - 1);
            if self.peripherals[n - 1].base_address <= base {
                assert forall|i: int| 0 <= i < n implies (#[trigger] self.peripherals[i]).base_address
                    <= base by {
                    if i < n - 1 {
                        assert(self.peripherals[i].base_address < self.peripherals[n
                            - 1].base_address);
                    }
                }
                n
            } else {
                q
            }
        }
    }

    /// A well-formed device has a slot for every base address.
    pub proof fn lemma_slot_exists(self, base: nat)
        requires
            self.wf(),
        ensures
            self.is_slot(base, self.slot(base)),
    {
        let k = self.lemma_place(base, self.peripherals.len() as int);
        assert(self.is_slot(base, k));
    }

    /// A peripheral that the device admits leaves it well-formed; the device
    /// then has the peripheral, and every peripheral it had, as it was.
    pub proof fn lemma_with_peripheral(self, p: PeripheralView)
        requires
            self.wf(),
            self.admits(p),
        ensures
            self.with_peripheral(p).wf(),
            self.with_peripheral(p).has_peripheral(p.name),
            forall|x: Seq<char>|
                self.has_peripheral(x) ==> self.with_peripheral(p).has_peripheral(x)
                    && self.with_peripheral(p).peripheral(x) == self.peripheral(x),
    {
        self.lemma_slot_exists(p.base_address);
        let k = self.slot(p.base_address);
        let after = self.with_peripheral(p);
        assert forall|i: int| 0 <= i < after.peripherals.len() implies (
        #[trigger] after.peripherals[i]).wf() by {
            if i < k {
                assert(after.peripherals[i] == self.peripherals[i]);
            } else if i > k {
                assert(after.peripherals[i] == self.peripherals[i - 1]);
            }
        }
        assert forall|i: int, j: int| 0 <= i < j < after.peripherals.len() implies (
        #[trigger] after.peripherals[i]).base_address < (#[trigger] after.peripherals[j]).base_address
            && after.peripherals[i].name != after.peripherals[j].name by {
            let a = if i < k { i } else { i - 1 };
            let b = if j < k { j } else { j - 1 };
            if i != k {
                assert(after.peripherals[i] == self.peripherals[a]);
                assert(self.peripherals[a].name != p.name);
            }
            if j != k {
                assert(after.peripherals[j] == self.peripherals[b]);
                assert(self.peripherals[b].name != p.name);
            }
            if i != k && j != k {
                assert(self.peripherals[a].base_address < self.peripherals[b].base_address);
            }
        }
        assert(after.peripherals[k] == p);
        assert forall|x: Seq<char>| self.has_peripheral(x) implies after.has_peripheral(x)
            && after.peripheral(x) == self.peripheral(x) by {
            let i = self.peripheral_index(x);
            let m = if i < k { i } else { i + 1 };
            assert(after.peripherals[m] == self.peripherals[i]);
            after.lemma_peripheral_index(x, m);
        }
    }

    /// A change to one peripheral that keeps its name and base address
    /// leaves the device with the same peripheral names, and every other
    /// peripheral as it was.
    pub proof fn lemma_changed_peripheral(self, name: Seq<char>, p: PeripheralView)
        requires
            self.wf(),
            self.has_peripheral(name),
            p.wf(),
            p.name == name,
            p.base_address == self.peripheral(name).base_address,
        ensures
            (DeviceView {
                peripherals: self.peripherals.update(self.peripheral_index(name), p),
                ..self
            }).wf(),
            forall|x: Seq<char>|
                self.has_peripheral(x) ==> (#[trigger] (DeviceView {
                    peripherals: self.peripherals.update(self.peripheral_index(name), p),
                    ..self
                }).has_peripheral(x)),
            forall|x: Seq<char>|
                x != name && self.has_peripheral(x) ==> (#[trigger] (DeviceView {
                    peripherals: self.peripherals.update(self.peripheral_index(name), p),
                    ..self
                }).peripheral(x)) == self.peripheral(x),
            (DeviceView {
                peripherals: self.peripherals.update(self.peripheral_index(name), p),
                ..self
            }).peripheral(name) == p,
    {
        let i = self.peripheral_index(name);
        let after = DeviceView { peripherals: self.peripherals.update(i, p), ..self };
        self.lemma_update_wf(i, p);
        assert(after.peripherals[i] == p);
        after.lemma_peripheral_index(name, i);
        assert forall|x: Seq<char>| self.has_peripheral(x) implies #[trigger] after.has_peripheral(
            x,
        ) by {
            let k = self.peripheral_index(x);
            assert(after.peripherals[k].name == x);
        }
        assert forall|x: Seq<char>| x != name && self.has_peripheral(x) implies #[trigger] after.peripheral(
            x,
        ) == self.peripheral(x) by {
            let k = self.peripheral_index(x);
            assert(after.peripherals[k] == self.peripherals[k]);
            after.lemma_peripheral_index(x, k);
        }
    }

    /// A change that keeps a peripheral's name and base address, and leaves
    /// it well-formed, leaves the device well-formed.
    pub proof fn lemma_update_wf(self, i: int, p: PeripheralView)
        requires
            self.wf(),
            0 <= i < self.peripherals.len(),
            p.wf(),
            p.name == self.peripherals[i].name,
            p.base_address == self.peripherals[i].base_address,
        ensures
            (DeviceView { peripherals: self.peripherals.update(i, p), ..self }).wf(),
    {
        let after = DeviceView { peripherals: self.peripherals.update(i, p), ..self };
        assert forall|a: int, b: int| 0 <= a < b < after.peripherals.len() implies (
        #[trigger] after.peripherals[a]).base_address < (#[trigger] after.peripherals[b]).base_address
            && after.peripherals[a].name != after.peripherals[b].name by {
            assert(self.peripherals[a].base_address < self.peripherals[b].base_address);
            assert(self.peripherals[a].name != self.peripherals[b].name);
        }
    }
}

/// A device. Every value is well-formed.
#[derive(Debug)]
pub struct Device {
    name: String,
    peripherals: Vec<Peripheral>,
}

impl View for Device {
    type V = DeviceView;

    closed spec fn view(&self) -> DeviceView {
        DeviceView { name: self.name@, peripherals: self.peripherals@.map_values(|p: Peripheral| p@) }
    }
}

impl Device {
    #[verifier::type_invariant]
    spec fn inv(&self) -> bool {
        self@.wf()
    }

    /// A device without peripherals.
    pub fn new(name: &str) -> (r: Device)
        ensures
            r@ == (DeviceView { name: name@, peripherals: Seq::empty() }),
            r@.wf(),
    {
        let peripherals: Vec<Peripheral> = Vec::new();
        assert(peripherals@.map_values(|p: Peripheral| p@) =~= Seq::<PeripheralView>::empty());
        Device { name: name.to_owned(), peripherals }
    }

    /// States what holds of every device.
    pub fn validity(&self)
        ensures
            self@.wf(),
    {
        proof {
            use_type_invariant(self);
        }
    }

    pub fn name(&self) -> (r: &str)
        ensures
            r@ == self@.name,
    {
        self.name.as_str()
    }

    pub fn peripheral_count(&self) -> (r: usize)
        ensures
            r == self@.peripherals.len(),
    {
        self.peripherals.len()
    }

    /// The peripheral at position `i`, in ascending order of base addresses.
    pub fn peripheral_at(&self, i: usize) -> (r: &Peripheral)
        requires
            i < self@.peripherals.len(),
        ensures
            r@ == self@.peripherals[i as int],
    {
        &self.peripherals[i]
    }

    /// The position of the peripheral called `name`.
    pub fn find_peripheral(&self, name: &str) -> (r: Option<usize>)
        ensures
            match r {
                Some(i) => self@.has_peripheral(name@) && i == self@.peripheral_index(name@) && i
                    < self@.peripherals.len() && self@.peripherals[i as int].name == name@,
                None => !self@.has_peripheral(name@),
            },
    {
        proof {
            use_type_invariant(self);
        }
        let mut i: usize = 0;
        while i < self.peripherals.len()
            invariant
                i <= self.peripherals.len(),
                self@.wf(),
                forall|j: int| 0 <= j < i ==> (#[trigger] self@.peripherals[j]).name != name@,
            decreases self.peripherals.len() - i,
        {
            if str_eq(self.peripherals[i].name(), name) {
                proof {
                    self@.lemma_peripheral_index(name@, i as int);
                }
                return Some(i);
            }
            i += 1;
        }
        None
    }

    /// The peripheral called `name`.
    pub fn peripheral(&self, name: &str) -> (r: Result<&Peripheral, Error>)
        ensures
            match r {
                Ok(p) => self@.has_peripheral(name@) && p@ == self@.peripheral(name@),
                Err(e) => e == Error::Lookup(Entity::Peripheral) && !self@.has_peripheral(name@),
            },
    {
        match self.find_peripheral(name) {
            Some(i) => Ok(&self.peripherals[i]),
            None => Err(Error::Lookup(Entity::Peripheral)),
        }
    }

    /// Adds `p` in its place in the address order, unless its name or its
    /// base address is taken.
    pub fn add_peripheral(&mut self, p: Peripheral) -> (res: Result<(), Error>)
        ensures
            final(self)@.wf(),
            match res {
                Ok(()) => old(self)@.add_peripheral(p@) == Ok::<DeviceView, Error>(final(self)@),
                Err(e) => old(self)@.add_peripheral(p@) == Err::<DeviceView, Error>(e) && final(self)@
                    == old(self)@,
            },
    {
        proof {
            use_type_invariant(&*self);
        }
        p.validity();
        let mut i: usize = 0;
        while i < self.peripherals.len()
            invariant
                i <= self.peripherals.len(),
                self@.wf(),
                forall|j: int|
                    0 <= j < i ==> (#[trigger] self@.peripherals[j]).name != p@.name
                        && self@.peripherals[j].base_address != p@.base_address,
            decreases self.peripherals.len() - i,
        {
            let taken = str_eq(self.peripherals[i].name(), p.name());
            let same_base = self.peripherals[i].base_address() == p.base_address();
            if taken || same_base {
                assert((self@.peripherals[i as int]).name == p@.name || (self@.peripherals[i as int]).base_address
                    == p@.base_address);
                return Err(Error::DuplicatePeripheral);
            }
            i += 1;
        }
        let mut k: usize = 0;
        while k < self.peripherals.len() && self.peripherals[k].base_address() <= p.base_address()
            invariant
                k <= self.peripherals.len(),
                self@.wf(),
                forall|j: int|
                    0 <= j < k ==> (#[trigger] self@.peripherals[j]).base_address <= p@.base_address,
            decreases self.peripherals.len() - k,
        {
            k += 1;
        }
        proof {
            assert forall|i: int| k <= i < self@.peripherals.len() implies (
            #[trigger] self@.peripherals[i]).base_address > p@.base_address by {
                if k < i {
                    assert(self@.peripherals[k as int].base_address < self@.peripherals[i].base_address);
                }
            }
            self@.lemma_slot(p@.base_address, k as int);
        }
        let ghost before = self@;
        let ghost after = before.with_peripheral(p@);
        let mut peripherals: Vec<Peripheral> = Vec::new();
        assert(peripherals@.map_values(|p: Peripheral| p@) =~= Seq::<PeripheralView>::empty());
        std::mem::swap(&mut peripherals, &mut self.peripherals);
        peripherals.insert(k, p);
        proof {
            assert(peripherals@.map_values(|p: Peripheral| p@) =~= after.peripherals);
            assert forall|i: int| 0 <= i < after.peripherals.len() implies (
            #[trigger] after.peripherals[i]).wf() by {
                if i < k {
                    assert(after.peripherals[i] == before.peripherals[i]);
                } else if i > k {
                    assert(after.peripherals[i] == before.peripherals[i - 1]);
                }
            }
            assert forall|i: int, j: int| 0 <= i < j < after.peripherals.len() implies (
            #[trigger] after.peripherals[i]).base_address < (#[trigger] after.peripherals[j]).base_address
                && after.peripherals[i].name != after.peripherals[j].name by {
                let a = if i < k { i } else { i - 1 };
                let b = if j < k { j } else { j - 1 };
                if i != k {
                    assert(after.peripherals[i] == before.peripherals[a]);
                    assert(before.peripherals[a].name != p@.name);
                }
                if j != k {
                    assert(after.peripherals[j] == before.peripherals[b]);
                    assert(before.peripherals[b].name != p@.name);
                }
                if i != k && j != k {
                    assert(before.peripherals[a].base_address < before.peripherals[b].base_address);
                }
            }
            assert(after.wf());
        }
        self.peripherals = peripherals;
        Ok(())
    }

    /// Adds `r` to the peripheral called `peripheral`.
    pub fn add_register(&mut self, peripheral: &str, r: Register) -> (res: Result<(), Error>)
        ensures
            final(self)@.wf(),
            match res {
                Ok(()) => old(self)@.add_register(peripheral@, r@) == Ok::<DeviceView, Error>(
                    final(self)@,
                ),
                Err(e) => old(self)@.add_register(peripheral@, r@) == Err::<DeviceView, Error>(e)
                    && final(self)@ == old(self)@,
            },
    {
        proof {
            use_type_invariant(&*self);
        }
        let i = match self.find_peripheral(peripheral) {
            Some(i) => i,
            None => {
                return Err(Error::Lookup(Entity::Peripheral));
            },
        };
        let ghost before = self@;
        let mut peripherals: Vec<Peripheral> = Vec::new();
        assert(peripherals@.map_values(|p: Peripheral| p@) =~= Seq::<PeripheralView>::empty());
        std::mem::swap(&mut peripherals, &mut self.peripherals);
        let res = peripherals[i].add_register(r);
        proof {
            let p = peripherals@[i as int]@;
            assert(peripherals@.map_values(|p: Peripheral| p@) =~= before.peripherals.update(
                i as int,
                p,
            ));
            before.lemma_update_wf(i as int, p);
            if res is Err {
                assert(before.peripherals.update(i as int, p) =~= before.peripherals);
            }
        }
        self.peripherals = peripherals;
        res
    }

    /// Takes the register called `register` out of a peripheral.
    pub fn remove_register(&mut self, peripheral: &str, register: &str) -> (res: Result<
        Register,
        Error,
    >)
        ensures
            final(self)@.wf(),
            match res {
                Ok(r) => old(self)@.remove_register(peripheral@, register@) == Ok::<
                    DeviceView,
                    Error,
                >(final(self)@) && r@ == old(self)@.peripheral(peripheral@).register(register@),
                Err(e) => old(self)@.remove_register(peripheral@, register@) == Err::<
                    DeviceView,
                    Error,
                >(e) && final(self)@ == old(self)@,
            },
    {
        proof {
            use_type_invariant(&*self);
        }
        let i = match self.find_peripheral(peripheral) {
            Some(i) => i,
            None => {
                return Err(Error::Lookup(Entity::Peripheral));
            },
        };
        let ghost before = self@;
        let mut peripherals: Vec<Peripheral> = Vec::new();
        assert(peripherals@.map_values(|p: Peripheral| p@) =~= Seq::<PeripheralView>::empty());
        std::mem::swap(&mut peripherals, &mut self.peripherals);
        let res = peripherals[i].remove_register(register);
        proof {
            let p = peripherals@[i as int]@;
            assert(peripherals@.map_values(|p: Peripheral| p@) =~= before.peripherals.update(
                i as int,
                p,
            ));
            before.lemma_update_wf(i as int, p);
            if res is Err {
                assert(before.peripherals.update(i as int, p) =~= before.peripherals);
            }
        }
        self.peripherals = peripherals;
        res
    }

    /// Adds `f` to a register of a peripheral.
    pub fn add_field(&mut self, peripheral: &str, register: &str, f: Field) -> (res: Result<
        (),
        Error,
    >)
        ensures
            final(self)@.wf(),
            match res {
                Ok(()) => old(self)@.add_field(peripheral@, register@, f@) == Ok::<
                    DeviceView,
                    Error,
                >(final(self)@),
                Err(e) => old(self)@.add_field(peripheral@, register@, f@) == Err::<
                    DeviceView,
                    Error,
                >(e) && final(self)@ == old(self)@,
            },
    {
        proof {
            use_type_invariant(&*self);
        }
        let i = match self.find_peripheral(peripheral) {
            Some(i) => i,
            None => {
                return Err(Error::Lookup(Entity::Peripheral));
            },
        };
        let ghost before = self@;
        let mut peripherals: Vec<Peripheral> = Vec::new();
        assert(peripherals@.map_values(|p: Peripheral| p@) =~= Seq::<PeripheralView>::empty());
        std::mem::swap(&mut peripherals, &mut self.peripherals);
        let res = peripherals[i].add_field(register, f);
        proof {
            let p = peripherals@[i as int]@;
            assert(peripherals@.map_values(|p: Peripheral| p@) =~= before.peripherals.update(
                i as int,
                p,
            ));
            before.lemma_update_wf(i as int, p);
            if res is Err {
                assert(before.peripherals.update(i as int, p) =~= before.peripherals);
            }
        }
        self.peripherals = peripherals;
        res
    }

    /// Resizes a field.
    pub fn resize_field(&mut self, peripheral: &str, register: &str, field: &str, bit_width: u32) -> (res:
        Result<(), Error>)
        ensures
            final(self)@.wf(),
            match res {
                Ok(()) => old(self)@.resize_field(
                    peripheral@,
                    register@,
                    field@,
                    bit_width as nat,
                ) == Ok::<DeviceView, Error>(final(self)@),
                Err(e) => old(self)@.resize_field(
                    peripheral@,
                    register@,
                    field@,
                    bit_width as nat,
                ) == Err::<DeviceView, Error>(e) && final(self)@ == old(self)@,
            },
    {
        proof {
            use_type_invariant(&*self);
        }
        let i = match self.find_peripheral(peripheral) {
            Some(i) => i,
            None => {
                return Err(Error::Lookup(Entity::Peripheral));
            },
        };
        let ghost before = self@;
        let mut peripherals: Vec<Peripheral> = Vec::new();
        assert(peripherals@.map_values(|p: Peripheral| p@) =~= Seq::<PeripheralView>::empty());
        std::mem::swap(&mut peripherals, &mut self.peripherals);
        let res = peripherals[i].resize_field(register, field, bit_width);
        proof {
            let p = peripherals@[i as int]@;
            assert(peripherals@.map_values(|p: Peripheral| p@) =~= before.peripherals.update(
                i as int,
                p,
            ));
            before.lemma_update_wf(i as int, p);
            if res is Err {
                assert(before.peripherals.update(i as int, p) =~= before.peripherals);
            }
        }
        self.peripherals = peripherals;
        res
    }

    /// Moves a field.
    pub fn reposition_field(
        &mut self,
        peripheral: &str,
        register: &str,
        field: &str,
        bit_offset: u32,
    ) -> (res: Result<(), Error>)
        ensures
            final(self)@.wf(),
            match res {
                Ok(()) => old(self)@.reposition_field(
                    peripheral@,
                    register@,
                    field@,
                    bit_offset as nat,
                ) == Ok::<DeviceView, Error>(final(self)@),
                Err(e) => old(self)@.reposition_field(
                    peripheral@,
                    register@,
                    field@,
                    bit_offset as nat,
                ) == Err::<DeviceView, Error>(e) && final(self)@ == old(self)@,
            },
    {
        proof {
            use_type_invariant(&*self);
        }
        let i = match self.find_peripheral(peripheral) {
            Some(i) => i,
            None => {
                return Err(Error::Lookup(Entity::Peripheral));
            },
        };
        let ghost before = self@;
        let mut peripherals: Vec<Peripheral> = Vec::new();
        assert(peripherals@.map_values(|p: Peripheral| p@) =~= Seq::<PeripheralView>::empty());
        std::mem::swap(&mut peripherals, &mut self.peripherals);
        let res = peripherals[i].reposition_field(register, field, bit_offset);
        proof {
            let p = peripherals@[i as int]@;
            assert(peripherals@.map_values(|p: Peripheral| p@) =~= before.peripherals.update(
                i as int,
                p,
            ));
            before.lemma_update_wf(i as int, p);
            if res is Err {
                assert(before.peripherals.update(i as int, p) =~= before.peripherals);
            }
        }
        self.peripherals = peripherals;
        res
    }
}

impl Device {
    /// Gives a register another name.
    pub fn rename_register(&mut self, peripheral: &str, register: &str, new_name: &str) -> (res:
        Result<(), Error>)
        ensures
            final(self)@.wf(),
            match res {
                Ok(()) => old(self)@.rename_register(peripheral@, register@, new_name@) == Ok::<
                    DeviceView,
                    Error,
                >(final(self)@),
                Err(e) => old(self)@.rename_register(peripheral@, register@, new_name@) == Err::<
                    DeviceView,
                    Error,
                >(e) && final(self)@ == old(self)@,
            },
    {
        proof {
            use_type_invariant(&*self);
        }
        let i = match self.find_peripheral(peripheral) {
            Some(i) => i,
            None => {
                return Err(Error::Lookup(Entity::Peripheral));
            },
        };
        let ghost before = self@;
        let mut peripherals: Vec<Peripheral> = Vec::new();
        assert(peripherals@.map_values(|p: Peripheral| p@) =~= Seq::<PeripheralView>::empty());
        std::mem::swap(&mut peripherals, &mut self.peripherals);
        let res = peripherals[i].rename_register(register, new_name);
        proof {
            let p = peripherals@[i as int]@;
            assert(peripherals@.map_values(|p: Peripheral| p@) =~= before.peripherals.update(
                i as int,
                p,
            ));
            before.lemma_update_wf(i as int, p);
            if res is Err {
                assert(before.peripherals.update(i as int, p) =~= before.peripherals);
            }
        }
        self.peripherals = peripherals;
        res
    }

    /// Gives a field another name.
    pub fn rename_field(
        &mut self,
        peripheral: &str,
        register: &str,
        field: &str,
        new_name: &str,
    ) -> (res: Result<(), Error>)
        ensures
            final(self)@.wf(),
            match res {
                Ok(()) => old(self)@.rename_field(peripheral@, register@, field@, new_name@)
                    == Ok::<DeviceView, Error>(final(self)@),
                Err(e) => old(self)@.rename_field(peripheral@, register@, field@, new_name@)
                    == Err::<DeviceView, Error>(e) && final(self)@ == old(self)@,
            },
    {
        proof {
            use_type_invariant(&*self);
        }
        let i = match self.find_peripheral(peripheral) {
            Some(i) => i,
            None => {
                return Err(Error::Lookup(Entity::Peripheral));
            },
        };
        let ghost before = self@;
        let mut peripherals: Vec<Peripheral> = Vec::new();
        assert(peripherals@.map_values(|p: Peripheral| p@) =~= Seq::<PeripheralView>::empty());
        std::mem::swap(&mut peripherals, &mut self.peripherals);
        let res = peripherals[i].rename_field(register, field, new_name);
        proof {
            let p = peripherals@[i as int]@;
            assert(peripherals@.map_values(|p: Peripheral| p@) =~= before.peripherals.update(
                i as int,
                p,
            ));
            before.lemma_update_wf(i as int, p);
            if res is Err {
                assert(before.peripherals.update(i as int, p) =~= before.peripherals);
            }
        }
        self.peripherals = peripherals;
        res
    }
}

impl Clone for Device {
    fn clone(&self) -> (r: Device)
        ensures
            r@ == self@,
    {
        proof {
            use_type_invariant(self);
        }
        let mut peripherals: Vec<Peripheral> = Vec::new();
        let mut i: usize = 0;
        while i < self.peripherals.len()
            invariant
                i <= self.peripherals.len(),
                peripherals@.len() == i,
                forall|j: int| 0 <= j < i ==> (#[trigger] peripherals@[j])@ == self.peripherals@[j]@,
            decreases self.peripherals.len() - i,
        {
            peripherals.push(self.peripherals[i].clone());
            i += 1;
        }
        assert(peripherals@.map_values(|p: Peripheral| p@) =~= self@.peripherals);
        Device { name: self.name.clone(), peripherals }
    }
}

} // verus!
