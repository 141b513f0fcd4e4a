//! The corrections that can be applied to a device, one at a time or as a
//! program. Each either succeeds or leaves the device as it was.

use vstd::prelude::*;
use crate::device::{Device, DeviceView};
use crate::error::{Entity, Error};
use crate::field::{Field, FieldView};
use crate::peripheral::{Peripheral, PeripheralView};
use crate::register::{Register, RegisterView};

verus! {

/// One correction, as a value that can be inspected before it is applied.
#[derive(Debug)]
pub enum PatchOp {
    /// Copies a register, with its fields, from one peripheral into another.
    CopyRegister { from: String, to: String, register: String },
    /// Copies a field from a register of one peripheral into the register of
    /// the same name of another.
    CopyField { from: String, to: String, register: String, field: String },
    /// Adds a peripheral that the description lacks.
    AddPeripheral { new_peripheral: Peripheral },
    /// Adds a register that the description lacks.
    AddRegister { peripheral: String, new_register: Register },
    /// Adds a field that the description lacks.
    AddField { peripheral: String, register: String, new_field: Field },
    /// Removes a register that the description wrongly lists.
    RemoveRegister { peripheral: String, register: String },
    /// Corrects the name of a register.
    RenameRegister { peripheral: String, register: String, name: String },
    /// Corrects the name of a field.
    RenameField { peripheral: String, register: String, field: String, name: String },
    /// Corrects the width of a field.
    ResizeField { peripheral: String, register: String, field: String, bit_width: u32 },
    /// Corrects the position of a field.
    RepositionField { peripheral: String, register: String, field: String, bit_offset: u32 },
}

/// What a correction is.
pub enum PatchOpView {
    CopyRegister { from: Seq<char>, to: Seq<char>, register: Seq<char> },
    CopyField { from: Seq<char>, to: Seq<char>, register: Seq<char>, field: Seq<char> },
    AddPeripheral { new_peripheral: PeripheralView },
    AddRegister { peripheral: Seq<char>, new_register: RegisterView },
    AddField { peripheral: Seq<char>, register: Seq<char>, new_field: FieldView },
    RemoveRegister { peripheral: Seq<char>, register: Seq<char> },
    RenameRegister { peripheral: Seq<char>, register: Seq<char>, name: Seq<char> },
    RenameField { peripheral: Seq<char>, register: Seq<char>, field: Seq<char>, name: Seq<char> },
    ResizeField { peripheral: Seq<char>, register: Seq<char>, field: Seq<char>, bit_width: nat },
    RepositionField { peripheral: Seq<char>, register: Seq<char>, field: Seq<char>, bit_offset: nat },
}

impl View for PatchOp {
    type V = PatchOpView;

    open spec fn view(&self) -> PatchOpView {
        match self {
            PatchOp::CopyRegister { from, to, register } => PatchOpView::CopyRegister {
                from: from@,
                to: to@,
                register: register@,
            },
            PatchOp::CopyField { from, to, register, field } => PatchOpView::CopyField {
                from: from@,
                to: to@,
                register: register@,
                field: field@,
            },
            PatchOp::AddPeripheral { new_peripheral } => PatchOpView::AddPeripheral {
                new_peripheral: new_peripheral@,
            },
            PatchOp::AddRegister { peripheral, new_register } => PatchOpView::AddRegister {
                peripheral: peripheral@,
                new_register: new_register@,
            },
            PatchOp::AddField { peripheral, register, new_field } => PatchOpView::AddField {
                peripheral: peripheral@,
                register: register@,
                new_field: new_field@,
            },
            PatchOp::RemoveRegister { peripheral, register } => PatchOpView::RemoveRegister {
                peripheral: peripheral@,
                register: register@,
            },
            PatchOp::RenameRegister { peripheral, register, name } => PatchOpView::RenameRegister {
                peripheral: peripheral@,
                register: register@,
                name: name@,
            },
            PatchOp::RenameField { peripheral, register, field, name } => PatchOpView::RenameField {
                peripheral: peripheral@,
                register: register@,
                field: field@,
                name: name@,
            },
            PatchOp::ResizeField { peripheral, register, field, bit_width } => PatchOpView::ResizeField {
                peripheral: peripheral@,
                register: register@,
                field: field@,
                bit_width: *bit_width as nat,
            },
            PatchOp::RepositionField {
                peripheral,
                register,
                field,
                bit_offset,
            } => PatchOpView::RepositionField {
                peripheral: peripheral@,
                register: register@,
                field: field@,
                bit_offset: *bit_offset as nat,
            },
        }
    }
}

/// The correction of a program that failed, by its position, and why.
#[derive(Clone, Copy, Debug, PartialEq, Eq, Structural)]
pub struct Failure {
    pub index: usize,
    pub error: Error,
}

impl DeviceView {
    /// Copying a register: both peripherals and the register must exist, and
    /// the target must admit the register.
    pub open spec fn copy_register(self, from: Seq<char>, to: Seq<char>, register: Seq<char>) -> Result<
        DeviceView,
        Error,
    > {
        if !self.has_peripheral(from) {
            Err(Error::Lookup(Entity::Peripheral))
        } else if !self.peripheral(from).has_register(register) {
            Err(Error::Lookup(Entity::Register))
        } else {
            self.add_register(to, self.peripheral(from).register(register))
        }
    }

    /// Copying a field: both peripherals, the register in both and the field
    /// in the source must exist, and the target register must admit the
    /// field.
    pub open spec fn copy_field(
        self,
        from: Seq<char>,
        to: Seq<char>,
        register: Seq<char>,
        field: Seq<char>,
    ) -> Result<DeviceView, Error> {
        if !self.has_peripheral(from) {
            Err(Error::Lookup(Entity::Peripheral))
        } else if !self.peripheral(from).has_register(register) {
            Err(Error::Lookup(Entity::Register))
        } else if !self.peripheral(from).register(register).has_field(field) {
            Err(Error::Lookup(Entity::Field))
        } else {
            let source = self.peripheral(from).register(register);
            self.add_field(to, register, source.fields[source.field_index(field)])
        }
    }

    /// What applying `op` gives.
    pub open spec fn apply(self, op: PatchOpView) -> Result<DeviceView, Error> {
        match op {
            PatchOpView::CopyRegister { from, to, register } => self.copy_register(from, to, register),
            PatchOpView::CopyField { from, to, register, field } => self.copy_field(
                from,
                to,
                register,
                field,
            ),
            PatchOpView::AddPeripheral { new_peripheral } => self.add_peripheral(new_peripheral),
            PatchOpView::AddRegister { peripheral, new_register } => self.add_register(
                peripheral,
                new_register,
            ),
            PatchOpView::AddField { peripheral, register, new_field } => self.add_field(
                peripheral,
                register,
                new_field,
            ),
            PatchOpView::RemoveRegister { peripheral, register } => self.remove_register(
                peripheral,
                register,
            ),
            PatchOpView::RenameRegister { peripheral, register, name } => self.rename_register(
                peripheral,
                register,
                name,
            ),
            PatchOpView::RenameField { peripheral, register, field, name } => self.rename_field(
                peripheral,
                register,
                field,
                name,
            ),
            PatchOpView::ResizeField { peripheral, register, field, bit_width } => self.resize_field(
                peripheral,
                register,
                field,
                bit_width,
            ),
            PatchOpView::RepositionField {
                peripheral,
                register,
                field,
                bit_offset,
            } => self.reposition_field(peripheral, register, field, bit_offset),
        }
    }

    /// What applying `ops[start..]` in order gives: the device after the
    /// last of them, or the position and the error of the first that fails.
    pub open spec fn run_from(self, ops: Seq<PatchOpView>, start: int) -> Result<
        DeviceView,
        (int, Error),
    >
        decreases ops.len() - start,
    {
        if start < 0 || start >= ops.len() {
            Ok(self)
        } else {
            match self.apply(ops[start]) {
                Ok(next) => next.run_from(ops, start + 1),
                Err(e) => Err((start, e)),
            }
        }
    }

    /// What applying the program `ops` gives.
    pub open spec fn run(self, ops: Seq<PatchOpView>) -> Result<DeviceView, (int, Error)> {
        self.run_from(ops, 0)
    }
}

/// What a program is.
pub open spec fn program_view(ops: Seq<PatchOp>) -> Seq<PatchOpView> {
    ops.map_values(|op: PatchOp| op@)
}

/// Copies the register called `register` from the peripheral `from` into the
/// peripheral `to`.
pub fn copy_register(dev: &mut Device, from: &str, to: &str, register: &str) -> (res: Result<
    (),
    Error,
>)
    ensures
        final(dev)@.wf(),
        match res {
            Ok(()) => old(dev)@.copy_register(from@, to@, register@) == Ok::<DeviceView, Error>(
                final(dev)@,
            ),
            Err(e) => old(dev)@.copy_register(from@, to@, register@) == Err::<DeviceView, Error>(e)
                && final(dev)@ == old(dev)@,
        },
{
    dev.validity();
    let copy = match dev.peripheral(from) {
        Ok(p) => match p.register(register) {
            Ok(r) => r.clone(),
            Err(e) => {
                return Err(e);
            },
        },
        Err(e) => {
            return Err(e);
        },
    };
    dev.add_register(to, copy)
}

/// Copies the field called `field` from the register `register` of the
/// peripheral `from` into the register of that name of the peripheral `to`.
pub fn copy_field(dev: &mut Device, from: &str, to: &str, register: &str, field: &str) -> (res:
    Result<(), Error>)
    ensures
        final(dev)@.wf(),
        match res {
            Ok(()) => old(dev)@.copy_field(from@, to@, register@, field@) == Ok::<
                DeviceView,
                Error,
            >(final(dev)@),
            Err(e) => old(dev)@.copy_field(from@, to@, register@, field@) == Err::<
                DeviceView,
                Error,
            >(e) && final(dev)@ == old(dev)@,
        },
{
    dev.validity();
    let copy = match dev.peripheral(from) {
        Ok(p) => match p.register(register) {
            Ok(r) => match r.field(field) {
                Ok(f) => f.clone(),
                Err(e) => {
                    return Err(e);
                },
            },
            Err(e) => {
                return Err(e);
            },
        },
        Err(e) => {
            return Err(e);
        },
    };
    dev.add_field(to, register, copy)
}

/// Adds the register `register` to the peripheral called `peripheral`.
pub fn add_register(dev: &mut Device, peripheral: &str, register: Register) -> (res: Result<
    (),
    Error,
>)
    ensures
        final(dev)@.wf(),
        match res {
            Ok(()) => old(dev)@.add_register(peripheral@, register@) == Ok::<DeviceView, Error>(
                final(dev)@,
            ),
            Err(e) => old(dev)@.add_register(peripheral@, register@) == Err::<DeviceView, Error>(e)
                && final(dev)@ == old(dev)@,
        },
{
    dev.add_register(peripheral, register)
}

/// Adds the field `field` to the register `register` of the peripheral
/// called `peripheral`.
pub fn add_field(dev: &mut Device, peripheral: &str, register: &str, field: Field) -> (res: Result<
    (),
    Error,
>)
    ensures
        final(dev)@.wf(),
        match res {
            Ok(()) => old(dev)@.add_field(peripheral@, register@, field@) == Ok::<
                DeviceView,
                Error,
            >(final(dev)@),
            Err(e) => old(dev)@.add_field(peripheral@, register@, field@) == Err::<
                DeviceView,
                Error,
            >(e) && final(dev)@ == old(dev)@,
        },
{
    dev.add_field(peripheral, register, field)
}

/// Removes the register called `register` from the peripheral called
/// `peripheral`.
pub fn remove_register(dev: &mut Device, peripheral: &str, register: &str) -> (res: Result<
    (),
    Error,
>)
    ensures
        final(dev)@.wf(),
        match res {
            Ok(()) => old(dev)@.remove_register(peripheral@, register@) == Ok::<
                DeviceView,
                Error,
            >(final(dev)@),
            Err(e) => old(dev)@.remove_register(peripheral@, register@) == Err::<
                DeviceView,
                Error,
            >(e) && final(dev)@ == old(dev)@,
        },
{
    match dev.remove_register(peripheral, register) {
        Ok(_) => Ok(()),
        Err(e) => Err(e),
    }
}

/// Gives the register called `register` the name `name`.
pub fn rename_register(dev: &mut Device, peripheral: &str, register: &str, name: &str) -> (res:
    Result<(), Error>)
    ensures
        final(dev)@.wf(),
        match res {
            Ok(()) => old(dev)@.rename_register(peripheral@, register@, name@) == Ok::<
                DeviceView,
                Error,
            >(final(dev)@),
            Err(e) => old(dev)@.rename_register(peripheral@, register@, name@) == Err::<
                DeviceView,
                Error,
            >(e) && final(dev)@ == old(dev)@,
        },
{
    dev.rename_register(peripheral, register, name)
}

/// Gives the field called `field` the name `name`.
pub fn rename_field(dev: &mut Device, peripheral: &str, register: &str, field: &str, name: &str) -> (res:
    Result<(), Error>)
    ensures
        final(dev)@.wf(),
        match res {
            Ok(()) => old(dev)@.rename_field(peripheral@, register@, field@, name@) == Ok::<
                DeviceView,
                Error,
            >(final(dev)@),
            Err(e) => old(dev)@.rename_field(peripheral@, register@, field@, name@) == Err::<
                DeviceView,
                Error,
            >(e) && final(dev)@ == old(dev)@,
        },
{
    dev.rename_field(peripheral, register, field, name)
}

/// Gives a field the width `bit_width`, and checks again that the fields of
/// its register keep apart.
pub fn resize_field(dev: &mut Device, peripheral: &str, register: &str, field: &str, bit_width: u32) -> (res:
    Result<(), Error>)
    ensures
        final(dev)@.wf(),
        match res {
            Ok(()) => old(dev)@.resize_field(peripheral@, register@, field@, bit_width as nat)
                == Ok::<DeviceView, Error>(final(dev)@),
            Err(e) => old(dev)@.resize_field(peripheral@, register@, field@, bit_width as nat)
                == Err::<DeviceView, Error>(e) && final(dev)@ == old(dev)@,
        },
{
    dev.resize_field(peripheral, register, field, bit_width)
}

/// Moves the lowest bit of a field to `bit_offset`, and checks again that the
/// fields of its register keep apart.
pub fn reposition_field(
    dev: &mut Device,
    peripheral: &str,
    register: &str,
    field: &str,
    bit_offset: u32,
) -> (res: Result<(), Error>)
    ensures
        final(dev)@.wf(),
        match res {
            Ok(()) => old(dev)@.reposition_field(peripheral@, register@, field@, bit_offset as nat)
                == Ok::<DeviceView, Error>(final(dev)@),
            Err(e) => old(dev)@.reposition_field(peripheral@, register@, field@, bit_offset as nat)
                == Err::<DeviceView, Error>(e) && final(dev)@ == old(dev)@,
        },
{
    dev.reposition_field(peripheral, register, field, bit_offset)
}

/// Applies one correction.
pub fn apply(dev: &mut Device, op: &PatchOp) -> (res: Result<(), Error>)
    ensures
        final(dev)@.wf(),
        match res {
            Ok(()) => old(dev)@.apply(op@) == Ok::<DeviceView, Error>(final(dev)@),
            Err(e) => old(dev)@.apply(op@) == Err::<DeviceView, Error>(e) && final(dev)@ == old(
                dev,
            )@,
        },
{
    match op {
        PatchOp::CopyRegister { from, to, register } => copy_register(
            dev,
            from.as_str(),
            to.as_str(),
            register.as_str(),
        ),
        PatchOp::CopyField { from, to, register, field } => copy_field(
            dev,
            from.as_str(),
            to.as_str(),
            register.as_str(),
            field.as_str(),
        ),
        PatchOp::AddPeripheral { new_peripheral } => dev.add_peripheral(new_peripheral.clone()),
        PatchOp::AddRegister { peripheral, new_register } => add_register(
            dev,
            peripheral.as_str(),
            new_register.clone(),
        ),
        PatchOp::AddField { peripheral, register, new_field } => add_field(
            dev,
            peripheral.as_str(),
            register.as_str(),
            new_field.clone(),
        ),
        PatchOp::RemoveRegister { peripheral, register } => remove_register(
            dev,
            peripheral.as_str(),
            register.as_str(),
        ),
        PatchOp::RenameRegister { peripheral, register, name } => rename_register(
            dev,
            peripheral.as_str(),
            register.as_str(),
            name.as_str(),
        ),
        PatchOp::RenameField { peripheral, register, field, name } => rename_field(
            dev,
            peripheral.as_str(),
            register.as_str(),
            field.as_str(),
            name.as_str(),
        ),
        PatchOp::ResizeField { peripheral, register, field, bit_width } => resize_field(
            dev,
            peripheral.as_str(),
            register.as_str(),
            field.as_str(),
            *bit_width,
        ),
        PatchOp::RepositionField { peripheral, register, field, bit_offset } => reposition_field(
            dev,
            peripheral.as_str(),
            register.as_str(),
            field.as_str(),
            *bit_offset,
        ),
    }
}

/// Applies the corrections of `ops` in order. The first that fails ends the
/// run: the device is given up, and the failure names the correction.
pub fn run(dev: Device, ops: &Vec<PatchOp>) -> (res: Result<Device, Failure>)
    ensures
        match res {
            Ok(d) => dev@.run(program_view(ops@)) == Ok::<DeviceView, (int, Error)>(d@) && d@.wf(),
            Err(f) => dev@.run(program_view(ops@)) == Err::<DeviceView, (int, Error)>(
                (f.index as int, f.error),
            ),
        },
{
    let mut current = dev;
    let ghost program = program_view(ops@);
    let mut i: usize = 0;
    current.validity();
    while i < ops.len()
        invariant
            i <= ops.len(),
            program == program_view(ops@),
            current@.wf(),
            dev@.run(program) == current@.run_from(program, i as int),
        decreases ops.len() - i,
    {
        assert(program[i as int] == ops@[i as int]@);
        match apply(&mut current, &ops[i]) {
            Ok(()) => {},
            Err(e) => {
                return Err(Failure { index: i, error: e });
            },
        }
        i += 1;
    }
    Ok(current)
}

/// Whether the corrections of `ops` would all succeed on `dev`, found out
/// before any of them touches the device.
pub fn validate(dev: &Device, ops: &Vec<PatchOp>) -> (res: Result<(), Failure>)
    ensures
        match res {
            Ok(()) => dev@.run(program_view(ops@)) is Ok,
            Err(f) => dev@.run(program_view(ops@)) == Err::<DeviceView, (int, Error)>(
                (f.index as int, f.error),
            ),
        },
{
    match run(dev.clone(), ops) {
        Ok(_) => Ok(()),
        Err(f) => Err(f),
    }
}

/// Applies the corrections of `ops` in order to `dev`, all or none: if one
/// of them fails, the device is as it was.
pub fn run_in_place(dev: &mut Device, ops: &Vec<PatchOp>) -> (res: Result<(), Failure>)
    ensures
        final(dev)@.wf(),
        match res {
            Ok(()) => old(dev)@.run(program_view(ops@)) == Ok::<DeviceView, (int, Error)>(
                final(dev)@,
            ),
            Err(f) => old(dev)@.run(program_view(ops@)) == Err::<DeviceView, (int, Error)>(
                (f.index as int, f.error),
            ) && final(dev)@ == old(dev)@,
        },
{
    dev.validity();
    match run(dev.clone(), ops) {
        Ok(patched) => {
            *dev = patched;
            Ok(())
        },
        Err(f) => Err(f),
    }
}

} // verus!
