//! The operand stack of the machine.
use crate::values::{negation, value_models, GenericValue, RuntimeError, ValueModel};
use vstd::prelude::*;

verus! {

/// How many values the stack of a new machine can hold.
pub const STACK_MAX: usize = 256;

/// A stack of values with a fixed capacity. The last value pushed is the
/// top.
#[derive(Debug)]
pub struct VirtualMachineStack {
    pub values: Vec<GenericValue>,
    pub ptr: usize,
    pub max_size: usize,
}

impl View for VirtualMachineStack {
    type V = Seq<ValueModel>;

    /// The values on the stack, the top one last.
    open spec fn view(&self) -> Seq<ValueModel> {
        value_models(self.values@)
    }
}

impl VirtualMachineStack {
    /// `ptr` counts the values held, and they fit the capacity.
    pub open spec fn wf(&self) -> bool {
        self.ptr == self.values@.len() && self.ptr <= self.max_size
    }

    /// An empty stack that can hold `max_size` values.
    pub fn with_capacity(max_size: usize) -> (out: Self)
        ensures
            out.wf(),
            out@ == Seq::<ValueModel>::empty(),
            out.max_size == max_size,
    {
        let out = VirtualMachineStack { values: Vec::new(), ptr: 0, max_size };
        assert(out@ =~= Seq::<ValueModel>::empty());
        out
    }

    /// Puts `value` on top. The stack must have room for it.
    pub fn push(&mut self, value: GenericValue)
        requires
            old(self).wf(),
            old(self)@.len() < old(self).max_size,
        ensures
            final(self).wf(),
            final(self).max_size == old(self).max_size,
            final(self)@ == old(self)@.push(value@),
    {
        self.values.push(value);
        self.ptr += 1;
        assert(self@ =~= old(self)@.push(value@));
    }

    /// Takes the top value off. The stack must not be empty.
    pub fn pop(&mut self) -> (out: GenericValue)
        requires
            old(self).wf(),
            old(self)@.len() > 0,
        ensures
            final(self).wf(),
            final(self).max_size == old(self).max_size,
            final(self)@ == old(self)@.drop_last(),
            out@ == old(self)@.last(),
    {
        self.ptr -= 1;
        let out = self.values.pop().unwrap();
        assert(self@ =~= old(self)@.drop_last());
        out
    }

    /// A copy of the value `distance` places below the top; 0 is the top
    /// itself. There must be such a value.
    pub fn peek(&self, distance: usize) -> (out: GenericValue)
        requires
            self.wf(),
            distance < self@.len(),
        ensures
            out@ == self@[self@.len() - 1 - distance],
    {
        self.values[self.ptr - 1 - distance].clone()
    }

    /// Replaces the top value by its negation, if it has one; otherwise
    /// leaves the stack as it is and says why. The stack must not be empty.
    pub fn negate_peek(&mut self) -> (out: Result<(), RuntimeError>)
        requires
            old(self).wf(),
            old(self)@.len() > 0,
        ensures
            final(self).wf(),
            final(self).max_size == old(self).max_size,
            match negation(old(self)@.last()) {
                Ok(v) => out.is_ok() && final(self)@ == old(self)@.drop_last().push(v),
                Err(e) => out.is_err() && out.unwrap_err()@ == e && final(self)@ == old(self)@,
            },
    {
        match self.values[self.ptr - 1].neg() {
            Ok(v) => {
                self.values.set(self.ptr - 1, v);
                assert(self@ =~= old(self)@.drop_last().push(v@));
                Ok(())
            },
            Err(e) => Err(e),
        }
    }
}

impl Default for VirtualMachineStack {
    fn default() -> (out: Self)
        ensures
            out.wf(),
            out@ == Seq::<ValueModel>::empty(),
            out.max_size == STACK_MAX,
    {
        VirtualMachineStack::with_capacity(STACK_MAX)
    }
}

} // verus!
