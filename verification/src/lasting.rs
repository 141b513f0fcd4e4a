//! What a correction adds and what it leaves in place: every correction
//! keeps a well-formed device well-formed; nothing goes but the register
//! that is removed and the name that is replaced; and so a program that
//! adds something cannot be applied to its own output.

use vstd::prelude::*;
use crate::device::DeviceView;
use crate::error::Error;
use crate::field::FieldView;
use crate::patch::PatchOpView;
use crate::peripheral::PeripheralView;
use crate::register::RegisterView;

verus! {

/// Something that a device may hold: a peripheral, a register of a
/// peripheral, or a field of a register.
pub enum Target {
    Peripheral { name: Seq<char> },
    Register { peripheral: Seq<char>, name: Seq<char> },
    Field { peripheral: Seq<char>, register: Seq<char>, name: Seq<char> },
}

impl Target {
    /// Whether `other` goes when `self` goes: a register goes with its
    /// fields.
    pub open spec fn covers(self, other: Target) -> bool {
        match self {
            Target::Peripheral { .. } => false,
            Target::Register { peripheral, name } => match other {
                Target::Peripheral { .. } => false,
                Target::Register { peripheral: p, name: r } => p == peripheral && r == name,
                Target::Field { peripheral: p, register: r, .. } => p == peripheral && r == name,
            },
            Target::Field { .. } => other == self,
        }
    }

    /// What goes from the peripheral called `peripheral` when `taken` goes:
    /// a register, or one field of a register.
    pub open spec fn from_peripheral(taken: Option<Target>, peripheral: Seq<char>) -> Option<
        (Seq<char>, Option<Seq<char>>),
    > {
        match taken {
            Some(Target::Register { peripheral: p, name }) => if p == peripheral {
                Some((name, None))
            } else {
                None
            },
            Some(Target::Field { peripheral: p, register, name }) => if p == peripheral {
                Some((register, Some(name)))
            } else {
                None
            },
            _ => None,
        }
    }
}

impl PatchOpView {
    /// What the correction adds, if it adds anything.
    pub open spec fn adds(self) -> Option<Target> {
        match self {
            PatchOpView::CopyRegister { to, register, .. } => Some(
                Target::Register { peripheral: to, name: register },
            ),
            PatchOpView::CopyField { to, register, field, .. } => Some(
                Target::Field { peripheral: to, register, name: field },
            ),
            PatchOpView::AddPeripheral { new_peripheral } => Some(
                Target::Peripheral { name: new_peripheral.name },
            ),
            PatchOpView::AddRegister { peripheral, new_register } => Some(
                Target::Register { peripheral, name: new_register.name },
            ),
            PatchOpView::AddField { peripheral, register, new_field } => Some(
                Target::Field { peripheral, register, name: new_field.name },
            ),
            PatchOpView::RenameRegister { peripheral, register, name } => if name != register {
                Some(Target::Register { peripheral, name })
            } else {
                None
            },
            PatchOpView::RenameField { peripheral, register, field, name } => if name != field {
                Some(Target::Field { peripheral, register, name })
            } else {
                None
            },
            _ => None,
        }
    }

    /// What the correction takes away, if it takes anything: the register
    /// that it removes, or the register or field under the name that it
    /// replaces.
    pub open spec fn takes(self) -> Option<Target> {
        match self {
            PatchOpView::RemoveRegister { peripheral, register } => Some(
                Target::Register { peripheral, name: register },
            ),
            PatchOpView::RenameRegister { peripheral, register, .. } => Some(
                Target::Register { peripheral, name: register },
            ),
            PatchOpView::RenameField { peripheral, register, field, .. } => Some(
                Target::Field { peripheral, register, name: field },
            ),
            _ => None,
        }
    }

    /// Whether the correction takes `target` away.
    pub open spec fn undoes(self, target: Target) -> bool {
        match self.takes() {
            Some(taken) => taken.covers(target),
            None => false,
        }
    }
}

impl PeripheralView {
    /// `next` is the same peripheral, well-formed, with every register of
    /// `self` and every field of each, but for `except`: a register, or one
    /// field of a register.
    pub open spec fn extended_by(
        self,
        next: PeripheralView,
        except: Option<(Seq<char>, Option<Seq<char>>)>,
    ) -> bool {
        &&& next.wf()
        &&& next.name == self.name
        &&& next.base_address == self.base_address
        &&& forall|x: Seq<char>|
            self.has_register(x) && except != Some((x, None::<Seq<char>>))
                ==> #[trigger] next.has_register(x)
        &&& forall|x: Seq<char>, f: Seq<char>|
            self.has_register(x) && except != Some((x, None::<Seq<char>>)) && except != Some(
                (x, Some(f)),
            ) && self.register(x).has_field(f) ==> #[trigger] next.register(x).has_field(f)
    }

    /// Adding a register takes nothing away.
    pub proof fn lemma_add_register_extends(self, r: RegisterView)
        requires
            self.wf(),
            self.add_register(r) is Ok,
        ensures
            self.extended_by(self.add_register(r).unwrap(), None),
            self.add_register(r).unwrap().has_register(r.name),
    {
        self.lemma_with_register(r);
    }

    /// Removing a register takes that register away and nothing else.
    pub proof fn lemma_remove_register_extends(self, name: Seq<char>)
        requires
            self.wf(),
            self.remove_register(name) is Ok,
        ensures
            self.extended_by(self.remove_register(name).unwrap(), Some((name, None))),
    {
        self.lemma_without_register(name);
    }

    /// Renaming a register takes the register under its old name away, and
    /// nothing else; the peripheral then has a register under the new name.
    pub proof fn lemma_rename_register_extends(self, name: Seq<char>, new_name: Seq<char>)
        requires
            self.wf(),
            self.rename_register(name, new_name) is Ok,
        ensures
            self.extended_by(self.rename_register(name, new_name).unwrap(), Some((name, None))),
            self.rename_register(name, new_name).unwrap().has_register(new_name),
    {
        self.lemma_without_register(name);
        let renamed = RegisterView { name: new_name, ..self.register(name) };
        self.without_register(name).lemma_with_register(renamed);
    }

    /// A change to the fields of one register takes nothing away but the
    /// field `gone`, if the register keeps every other field name.
    pub proof fn lemma_change_register_extends(
        self,
        name: Seq<char>,
        change: spec_fn(RegisterView) -> Result<RegisterView, Error>,
        gone: Option<Seq<char>>,
    )
        requires
            self.wf(),
            self.change_register(name, change) is Ok,
            ({
                let before = self.register(name);
                let after = change(before).unwrap();
                &&& after.wf()
                &&& after.name == before.name
                &&& after.offset == before.offset
                &&& after.width == before.width
                &&& after.alias == before.alias
                &&& forall|f: Seq<char>| before.has_field(f) && gone != Some(f) ==> after.has_field(f)
            }),
        ensures
            self.extended_by(
                self.change_register(name, change).unwrap(),
                match gone {
                    Some(f) => Some((name, Some(f))),
                    None => None,
                },
            ),
            self.change_register(name, change).unwrap().has_register(name),
            self.change_register(name, change).unwrap().register(name) == change(
                self.register(name),
            ).unwrap(),
    {
        let i = self.register_index(name);
        assert(self.registers[i].name == name);
        let after = change(self.register(name)).unwrap();
        self.lemma_changed_register(name, after);
        let next = self.change_register(name, change).unwrap();
        let except = match gone {
            Some(f) => Some((name, Some(f))),
            None => None,
        };
        assert forall|x: Seq<char>, f: Seq<char>|
            self.has_register(x) && except != Some((x, None::<Seq<char>>)) && except != Some(
                (x, Some(f)),
            ) && self.register(x).has_field(f) implies #[trigger] next.register(x).has_field(f) by {
            if x != name {
                assert(next.register(x) == self.register(x));
            }
        }
    }

    /// Adding a field takes nothing away.
    pub proof fn lemma_add_field_extends(self, register: Seq<char>, f: FieldView)
        requires
            self.wf(),
            self.add_field(register, f) is Ok,
        ensures
            self.extended_by(self.add_field(register, f).unwrap(), None),
            self.add_field(register, f).unwrap().has_register(register),
            self.add_field(register, f).unwrap().register(register).has_field(f.name),
    {
        let i = self.register_index(register);
        assert(self.registers[i].wf());
        self.register(register).lemma_with_field(f);
        self.lemma_change_register_extends(register, |r: RegisterView| r.add_field(f), None);
    }

    /// Renaming a field takes the field under its old name away, and
    /// nothing else; the register then has a field under the new name.
    pub proof fn lemma_rename_field_extends(
        self,
        register: Seq<char>,
        field: Seq<char>,
        new_name: Seq<char>,
    )
        requires
            self.wf(),
            self.rename_field(register, field, new_name) is Ok,
        ensures
            self.extended_by(
                self.rename_field(register, field, new_name).unwrap(),
                Some((register, Some(field))),
            ),
            self.rename_field(register, field, new_name).unwrap().has_register(register),
            self.rename_field(register, field, new_name).unwrap().register(register).has_field(
                new_name,
            ),
    {
        let i = self.register_index(register);
        assert(self.registers[i].wf());
        let r = self.register(register);
        let k = r.field_index(field);
        r.lemma_replace_field(field, FieldView { name: new_name, ..r.fields[k] });
        self.lemma_change_register_extends(
            register,
            |r: RegisterView| r.rename_field(field, new_name),
            Some(field),
        );
    }

    /// Resizing a field takes nothing away.
    pub proof fn lemma_resize_field_extends(self, register: Seq<char>, field: Seq<char>, bit_width: nat)
        requires
            self.wf(),
            self.resize_field(register, field, bit_width) is Ok,
        ensures
            self.extended_by(self.resize_field(register, field, bit_width).unwrap(), None),
    {
        let i = self.register_index(register);
        assert(self.registers[i].wf());
        let r = self.register(register);
        let k = r.field_index(field);
        assert(r.fields[k].name == field);
        r.lemma_replace_field(field, FieldView { bit_width, ..r.fields[k] });
        assert(r.resize_field(field, bit_width).unwrap().has_field(field));
        self.lemma_change_register_extends(
            register,
            |r: RegisterView| r.resize_field(field, bit_width),
            None,
        );
    }

    /// Moving a field takes nothing away.
    pub proof fn lemma_reposition_field_extends(
        self,
        register: Seq<char>,
        field: Seq<char>,
        bit_offset: nat,
    )
        requires
            self.wf(),
            self.reposition_field(register, field, bit_offset) is Ok,
        ensures
            self.extended_by(self.reposition_field(register, field, bit_offset).unwrap(), None),
    {
        let i = self.register_index(register);
        assert(self.registers[i].wf());
        let r = self.register(register);
        let k = r.field_index(field);
        assert(r.fields[k].name == field);
        r.lemma_replace_field(field, FieldView { bit_offset, ..r.fields[k] });
        assert(r.reposition_field(field, bit_offset).unwrap().has_field(field));
        self.lemma_change_register_extends(
            register,
            |r: RegisterView| r.reposition_field(field, bit_offset),
            None,
        );
    }
}

impl DeviceView {
    /// Whether the device holds `target`.
    pub open spec fn holds(self, target: Target) -> bool {
        match target {
            Target::Peripheral { name } => self.has_peripheral(name),
            Target::Register { peripheral, name } => self.has_peripheral(peripheral)
                && self.peripheral(peripheral).has_register(name),
            Target::Field { peripheral, register, name } => self.has_peripheral(peripheral)
                && self.peripheral(peripheral).has_register(register) && self.peripheral(
                peripheral,
            ).register(register).has_field(name),
        }
    }

    /// `next` is well-formed and has every peripheral of `self`, each with
    /// all it had but `taken`.
    pub open spec fn extended_by(self, next: DeviceView, taken: Option<Target>) -> bool {
        &&& next.wf()
        &&& forall|x: Seq<char>|
            self.has_peripheral(x) ==> #[trigger] next.has_peripheral(x) && self.peripheral(
                x,
            ).extended_by(next.peripheral(x), Target::from_peripheral(taken, x))
    }

    /// What a device holds, a device that extends it holds too, unless it
    /// went with what was taken.
    pub proof fn lemma_extended_holds(self, next: DeviceView, taken: Option<Target>, target: Target)
        requires
            self.extended_by(next, taken),
            self.holds(target),
            taken matches Some(t) ==> !t.covers(target),
        ensures
            next.holds(target),
    {
        match target {
            Target::Peripheral { name } => {
                assert(next.has_peripheral(name));
            },
            Target::Register { peripheral, name } => {
                assert(next.has_peripheral(peripheral));
                assert(next.peripheral(peripheral).has_register(name));
            },
            Target::Field { peripheral, register, name } => {
                assert(next.has_peripheral(peripheral));
                assert(next.peripheral(peripheral).has_register(register));
                assert(next.peripheral(peripheral).register(register).has_field(name));
            },
        }
    }

    /// A change to one peripheral that takes nothing away but `taken`, a
    /// register or a field of that peripheral, extends the device.
    pub proof fn lemma_change_peripheral_extends(
        self,
        name: Seq<char>,
        change: spec_fn(PeripheralView) -> Result<PeripheralView, Error>,
        taken: Option<Target>,
    )
        requires
            self.wf(),
            self.change_peripheral(name, change) is Ok,
            self.peripheral(name).extended_by(
                change(self.peripheral(name)).unwrap(),
                Target::from_peripheral(taken, name),
            ),
            forall|x: Seq<char>| x != name ==> Target::from_peripheral(taken, x) is None,
        ensures
            self.extended_by(self.change_peripheral(name, change).unwrap(), taken),
            self.change_peripheral(name, change).unwrap().has_peripheral(name),
            self.change_peripheral(name, change).unwrap().peripheral(name) == change(
                self.peripheral(name),
            ).unwrap(),
    {
        let i = self.peripheral_index(name);
        assert(self.peripherals[i].name == name);
        let after = change(self.peripheral(name)).unwrap();
        self.lemma_changed_peripheral(name, after);
        let next = self.change_peripheral(name, change).unwrap();
        assert forall|x: Seq<char>| self.has_peripheral(x) implies #[trigger] next.has_peripheral(x)
            && self.peripheral(x).extended_by(next.peripheral(x), Target::from_peripheral(taken, x)) by {
            if x != name {
                assert(next.peripheral(x) == self.peripheral(x));
                let k = self.peripheral_index(x);
                assert(self.peripherals[k].wf());
            }
        }
    }

    /// Every correction that succeeds leaves a well-formed device
    /// well-formed, with what it adds, and takes nothing away but what
    /// `takes` names.
    pub proof fn lemma_apply_extends(self, op: PatchOpView)
        requires
            self.wf(),
            self.apply(op) is Ok,
        ensures
            self.extended_by(self.apply(op).unwrap(), op.takes()),
            self.apply(op).unwrap().wf(),
            op.adds() matches Some(target) ==> self.apply(op).unwrap().holds(target),
    {
        match op {
            PatchOpView::CopyRegister { from, to, register } => {
                let r = self.peripheral(from).register(register);
                let k = self.peripheral(from).register_index(register);
                assert(self.peripheral(from).registers[k].name == register);
                self.lemma_add_register_at(to, r);
            },
            PatchOpView::CopyField { from, to, register, field } => {
                let source = self.peripheral(from).register(register);
                let k = source.field_index(field);
                assert(source.fields[k].name == field);
                self.lemma_add_field_at(to, register, source.fields[k]);
            },
            PatchOpView::AddPeripheral { new_peripheral } => {
                self.lemma_with_peripheral(new_peripheral);
                let next = self.with_peripheral(new_peripheral);
                assert forall|x: Seq<char>| self.has_peripheral(x) implies #[trigger] next.has_peripheral(
                    x,
                ) && self.peripheral(x).extended_by(
                    next.peripheral(x),
                    Target::from_peripheral(None, x),
                ) by {
                    let k = self.peripheral_index(x);
                    assert(self.peripherals[k].wf());
                }
            },
            PatchOpView::AddRegister { peripheral, new_register } => {
                self.lemma_add_register_at(peripheral, new_register);
            },
            PatchOpView::AddField { peripheral, register, new_field } => {
                self.lemma_add_field_at(peripheral, register, new_field);
            },
            PatchOpView::RemoveRegister { peripheral, register } => {
                let i = self.peripheral_index(peripheral);
                assert(self.peripherals[i].wf());
                self.peripheral(peripheral).lemma_remove_register_extends(register);
                self.lemma_change_peripheral_extends(
                    peripheral,
                    |p: PeripheralView| p.remove_register(register),
                    op.takes(),
                );
            },
            PatchOpView::RenameRegister { peripheral, register, name } => {
                let i = self.peripheral_index(peripheral);
                assert(self.peripherals[i].wf());
                self.peripheral(peripheral).lemma_rename_register_extends(register, name);
                self.lemma_change_peripheral_extends(
                    peripheral,
                    |p: PeripheralView| p.rename_register(register, name),
                    op.takes(),
                );
            },
            PatchOpView::RenameField { peripheral, register, field, name } => {
                let i = self.peripheral_index(peripheral);
                assert(self.peripherals[i].wf());
                self.peripheral(peripheral).lemma_rename_field_extends(register, field, name);
                self.lemma_change_peripheral_extends(
                    peripheral,
                    |p: PeripheralView| p.rename_field(register, field, name),
                    op.takes(),
                );
            },
            PatchOpView::ResizeField { peripheral, register, field, bit_width } => {
                let i = self.peripheral_index(peripheral);
                assert(self.peripherals[i].wf());
                self.peripheral(peripheral).lemma_resize_field_extends(register, field, bit_width);
                self.lemma_change_peripheral_extends(
                    peripheral,
                    |p: PeripheralView| p.resize_field(register, field, bit_width),
                    None,
                );
            },
            PatchOpView::RepositionField { peripheral, register, field, bit_offset } => {
                let i = self.peripheral_index(peripheral);
                assert(self.peripherals[i].wf());
                self.peripheral(peripheral).lemma_reposition_field_extends(
                    register,
                    field,
                    bit_offset,
                );
                self.lemma_change_peripheral_extends(
                    peripheral,
                    |p: PeripheralView| p.reposition_field(register, field, bit_offset),
                    None,
                );
            },
        }
    }

    /// Adding a register to a peripheral extends the device, which then
    /// holds the register.
    proof fn lemma_add_register_at(self, peripheral: Seq<char>, r: RegisterView)
        requires
            self.wf(),
            self.add_register(peripheral, r) is Ok,
        ensures
            self.extended_by(self.add_register(peripheral, r).unwrap(), None),
            self.add_register(peripheral, r).unwrap().holds(
                Target::Register { peripheral, name: r.name },
            ),
    {
        let i = self.peripheral_index(peripheral);
        assert(self.peripherals[i].wf());
        self.peripheral(peripheral).lemma_add_register_extends(r);
        self.lemma_change_peripheral_extends(
            peripheral,
            |p: PeripheralView| p.add_register(r),
            None,
        );
    }

    /// Adding a field to a register extends the device, which then holds
    /// the field.
    proof fn lemma_add_field_at(self, peripheral: Seq<char>, register: Seq<char>, f: FieldView)
        requires
            self.wf(),
            self.add_field(peripheral, register, f) is Ok,
        ensures
            self.extended_by(self.add_field(peripheral, register, f).unwrap(), None),
            self.add_field(peripheral, register, f).unwrap().holds(
                Target::Field { peripheral, register, name: f.name },
            ),
    {
        let i = self.peripheral_index(peripheral);
        assert(self.peripherals[i].wf());
        self.peripheral(peripheral).lemma_add_field_extends(register, f);
        self.lemma_change_peripheral_extends(
            peripheral,
            |p: PeripheralView| p.add_field(register, f),
            None,
        );
    }

    /// A correction fails on a device that already holds what it adds, and
    /// fails because of that: with `DuplicatePeripheral`,
    /// `DuplicateRegister` or `FieldOverlap`, unless what it copies is not
    /// there to be copied.
    pub proof fn lemma_apply_refused(self, op: PatchOpView)
        requires
            self.wf(),
            op.adds() matches Some(target) && self.holds(target),
        ensures
            self.apply(op) is Err,
            match self.apply(op)->Err_0 {
                Error::Lookup(_) => op is CopyRegister || op is CopyField || op is RenameRegister
                    || op is RenameField,
                Error::DuplicatePeripheral => op is AddPeripheral,
                Error::DuplicateRegister => op is CopyRegister || op is AddRegister
                    || op is RenameRegister,
                Error::FieldOverlap => op is CopyField || op is AddField || op is RenameField,
                _ => false,
            },
    {
        match op {
            PatchOpView::CopyRegister { from, to, register } => {
                if self.has_peripheral(from) && self.peripheral(from).has_register(register) {
                    let k = self.peripheral(from).register_index(register);
                    assert(self.peripheral(from).registers[k].name == register);
                }
            },
            PatchOpView::CopyField { from, to, register, field } => {
                if self.has_peripheral(from) && self.peripheral(from).has_register(register)
                    && self.peripheral(from).register(register).has_field(field) {
                    let source = self.peripheral(from).register(register);
                    let k = source.field_index(field);
                    assert(source.fields[k].name == field);
                }
            },
            PatchOpView::AddPeripheral { new_peripheral } => {
                let i = self.peripheral_index(new_peripheral.name);
                assert(self.peripherals[i].name == new_peripheral.name);
            },
            PatchOpView::RenameRegister { peripheral, register, name } => {
                let i = self.peripheral_index(peripheral);
                assert(self.peripherals[i].wf());
                let p = self.peripheral(peripheral);
                if p.has_register(register) {
                    p.lemma_without_register(register);
                }
            },
            PatchOpView::RenameField { peripheral, register, field, name } => {
                let i = self.peripheral_index(peripheral);
                assert(self.peripherals[i].wf());
                let p = self.peripheral(peripheral);
                let k = p.register_index(register);
                assert(p.registers[k].wf());
                let r = p.register(register);
                if r.has_field(field) {
                    r.lemma_without_field(field);
                }
            },
            _ => {},
        }
    }

    /// What a device holds, it holds after a run of corrections of which
    /// none takes it away; and the run leaves the device well-formed.
    pub proof fn lemma_run_keeps(self, ops: Seq<PatchOpView>, start: int, target: Target)
        requires
            self.wf(),
            0 <= start,
            self.run_from(ops, start) is Ok,
            self.holds(target),
            forall|j: int| start <= j < ops.len() ==> !(#[trigger] ops[j]).undoes(target),
        ensures
            self.run_from(ops, start)->Ok_0.wf(),
            self.run_from(ops, start)->Ok_0.holds(target),
        decreases ops.len() - start,
    {
        if start < ops.len() {
            let next = self.apply(ops[start]).unwrap();
            self.lemma_apply_extends(ops[start]);
            assert(!ops[start].undoes(target));
            self.lemma_extended_holds(next, ops[start].takes(), target);
            next.lemma_run_keeps(ops, start + 1, target);
        }
    }

    /// A run of corrections leaves a well-formed device well-formed.
    pub proof fn lemma_run_wf(self, ops: Seq<PatchOpView>, start: int)
        requires
            self.wf(),
            0 <= start,
            self.run_from(ops, start) is Ok,
        ensures
            self.run_from(ops, start)->Ok_0.wf(),
        decreases ops.len() - start,
    {
        if start < ops.len() {
            let next = self.apply(ops[start]).unwrap();
            self.lemma_apply_extends(ops[start]);
            next.lemma_run_wf(ops, start + 1);
        }
    }

    /// After a run, the device holds what any of its corrections added,
    /// unless a correction of the run takes it away.
    pub proof fn lemma_run_adds(self, ops: Seq<PatchOpView>, start: int, i: int, target: Target)
        requires
            self.wf(),
            0 <= start <= i < ops.len(),
            self.run_from(ops, start) is Ok,
            ops[i].adds() == Some(target),
            forall|j: int| start <= j < ops.len() ==> !(#[trigger] ops[j]).undoes(target),
        ensures
            self.run_from(ops, start)->Ok_0.holds(target),
        decreases ops.len() - start,
    {
        let next = self.apply(ops[start]).unwrap();
        self.lemma_apply_extends(ops[start]);
        if start == i {
            next.lemma_run_keeps(ops, start + 1, target);
        } else {
            next.lemma_run_adds(ops, start + 1, i, target);
        }
    }

    /// A run fails on a device that already holds what one of its
    /// corrections adds, unless an earlier correction takes it away: at
    /// that correction or before it.
    pub proof fn lemma_run_refused(self, ops: Seq<PatchOpView>, start: int, i: int, target: Target)
        requires
            self.wf(),
            0 <= start <= i < ops.len(),
            self.holds(target),
            ops[i].adds() == Some(target),
            forall|j: int| start <= j < i ==> !(#[trigger] ops[j]).undoes(target),
        ensures
            self.run_from(ops, start) is Err,
            start <= self.run_from(ops, start)->Err_0.0 <= i,
        decreases i - start,
    {
        if start == i {
            self.lemma_apply_refused(ops[i]);
        } else if self.apply(ops[start]) is Ok {
            let next = self.apply(ops[start]).unwrap();
            self.lemma_apply_extends(ops[start]);
            assert(!ops[start].undoes(target));
            self.lemma_extended_holds(next, ops[start].takes(), target);
            next.lemma_run_refused(ops, start + 1, i, target);
        }
    }
}

/// The outcome of a run, with the position of a failure counted from
/// `offset` on.
pub open spec fn shifted(outcome: Result<DeviceView, (int, Error)>, offset: int) -> Result<
    DeviceView,
    (int, Error),
> {
    match outcome {
        Ok(d) => Ok(d),
        Err((index, e)) => Err((index + offset, e)),
    }
}

impl DeviceView {
    /// The tail of a program that follows another runs as it runs alone.
    proof fn lemma_run_tail(self, a: Seq<PatchOpView>, b: Seq<PatchOpView>, j: int)
        requires
            0 <= j <= b.len(),
        ensures
            self.run_from(a + b, a.len() + j) == shifted(self.run_from(b, j), a.len() as int),
        decreases b.len() - j,
    {
        if j < b.len() {
            assert((a + b)[a.len() + j] == b[j]);
            if self.apply(b[j]) is Ok {
                self.apply(b[j]).unwrap().lemma_run_tail(a, b, j + 1);
            }
        }
    }

    /// Two programs, one after the other, run as the first and then, on its
    /// output, the second.
    pub proof fn lemma_run_append(self, a: Seq<PatchOpView>, b: Seq<PatchOpView>, k: int)
        requires
            0 <= k <= a.len(),
        ensures
            self.run_from(a + b, k) == match self.run_from(a, k) {
                Ok(middle) => shifted(middle.run(b), a.len() as int),
                Err(failure) => Err(failure),
            },
        decreases a.len() - k,
    {
        if k < a.len() {
            assert((a + b)[k] == a[k]);
            if self.apply(a[k]) is Ok {
                self.apply(a[k]).unwrap().lemma_run_append(a, b, k + 1);
            }
        } else {
            self.lemma_run_tail(a, b, 0);
        }
    }
}

/// A program is not applied twice: if one of its corrections adds something
/// that none of them takes away, then the program, having run on a
/// well-formed device, fails on its own output, at that correction or
/// before it.
pub proof fn lemma_second_run_fails(dev: DeviceView, ops: Seq<PatchOpView>, i: int)
    requires
        dev.wf(),
        dev.run(ops) is Ok,
        0 <= i < ops.len(),
        ops[i].adds() is Some,
        forall|j: int| 0 <= j < ops.len() ==> !(#[trigger] ops[j]).undoes(ops[i].adds().unwrap()),
    ensures
        dev.run(ops)->Ok_0.run(ops) is Err,
        0 <= dev.run(ops)->Ok_0.run(ops)->Err_0.0 <= i,
{
    let target = ops[i].adds().unwrap();
    let out = dev.run(ops)->Ok_0;
    dev.lemma_run_adds(ops, 0, i, target);
    dev.lemma_run_wf(ops, 0);
    out.lemma_run_refused(ops, 0, i, target);
}

} // verus!
