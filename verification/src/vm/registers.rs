//! The register array of the machine: one flat array of fixed length, of which
//! the running function sees the window that starts at the base register.

use crate::instructions::Register;
use crate::vm::value::{register_views, VMValue, ValueView};
use vstd::prelude::*;

verus! {

/// How many registers the machine has in all.
pub const REGISTER_CAPACITY: usize = 255;

/// The registers of the machine and the base of the current window.
#[derive(Debug, PartialEq)]
pub struct Registers {
    registers: Vec<VMValue>,
    base_register: usize,
}

impl Registers {
    /// What the registers hold, from the start of the array.
    pub closed spec fn values(&self) -> Seq<ValueView> {
        register_views(self.registers@)
    }

    /// Where the current window starts.
    pub closed spec fn base(&self) -> usize {
        self.base_register
    }

    /// What register `index` of the current window holds, if the array reaches
    /// that far.
    pub open spec fn read(&self, index: Register) -> Option<ValueView> {
        if self.base() + index < self.values().len() {
            Some(self.values()[self.base() + index])
        } else {
            None
        }
    }

    /// The full array, every register empty, the window at its start.
    pub fn new() -> (registers: Self)
        ensures
            registers.values() == Seq::new(REGISTER_CAPACITY as nat, |i: int| ValueView::Empty),
            registers.base() == 0,
    {
        let mut registers: Vec<VMValue> = Vec::new();
        while registers.len() < REGISTER_CAPACITY
            invariant
                registers.len() <= REGISTER_CAPACITY,
                forall|i: int| 0 <= i < registers.len() ==> registers@[i]@ == ValueView::Empty,
            decreases REGISTER_CAPACITY - registers.len(),
        {
            registers.push(VMValue::Empty);
        }
        let s = Registers { registers, base_register: 0 };
        assert(s.values() =~= Seq::new(REGISTER_CAPACITY as nat, |i: int| ValueView::Empty));
        s
    }

    /// The whole array.
    pub fn regs(&self) -> (registers: &Vec<VMValue>)
        ensures
            register_views(registers@) == self.values(),
    {
        &self.registers
    }

    /// How many registers there are in all.
    pub fn len(&self) -> (n: usize)
        ensures
            n == self.values().len(),
    {
        self.registers.len()
    }

    /// Where the current window starts.
    pub fn base_register(&self) -> (base: usize)
        ensures
            base == self.base(),
    {
        self.base_register
    }

    /// Moves the window.
    pub fn update_base_register(&mut self, new_base: usize)
        ensures
            final(self).base() == new_base,
            final(self).values() == old(self).values(),
    {
        self.base_register = new_base;
    }

    /// Whether register `index` of the current window lies inside the array.
    pub fn in_window(&self, index: Register) -> (r: bool)
        ensures
            r == (self.base() + index < self.values().len()),
    {
        self.base_register < self.registers.len() && (index as usize) < self.registers.len()
            - self.base_register
    }

    /// Register `index` of the current window.
    pub fn get(&self, index: Register) -> (value: Option<&VMValue>)
        ensures
            match value {
                Some(held) => self.read(index) == Some(held@),
                None => self.read(index) is None,
            },
    {
        if self.in_window(index) {
            assert(self.values().len() == self.registers.len());
            Some(&self.registers[self.base_register + index as usize])
        } else {
            None
        }
    }

    /// Puts `value` into register `index` of the current window; tells whether
    /// the register exists. Nothing changes where it does not.
    pub fn set(&mut self, index: Register, value: VMValue) -> (done: bool)
        ensures
            final(self).base() == old(self).base(),
            done == (old(self).base() + index < old(self).values().len()),
            done ==> final(self).values() == old(self).values().update(
                old(self).base() + index,
                value@,
            ),
            !done ==> final(self).values() == old(self).values(),
    {
        if self.in_window(index) {
            assert(self.values().len() == self.registers.len());
            let position = self.base_register + index as usize;
            self.registers.set(position, value);
            assert(self.values() =~= old(self).values().update(position as int, value@));
            true
        } else {
            false
        }
    }

    /// The register at `position` of the array, whatever the window.
    pub fn get_absolute(&self, position: usize) -> (value: &VMValue)
        requires
            position < self.values().len(),
        ensures
            value@ == self.values()[position as int],
    {
        &self.registers[position]
    }

    /// Puts `value` at `position` of the array, whatever the window.
    pub fn set_absolute(&mut self, position: usize, value: VMValue)
        requires
            position < old(self).values().len(),
        ensures
            final(self).base() == old(self).base(),
            final(self).values() == old(self).values().update(position as int, value@),
    {
        self.registers.set(position, value);
        assert(self.values() =~= old(self).values().update(position as int, value@));
    }
}

} // verus!
