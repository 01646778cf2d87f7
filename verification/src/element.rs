//! The structural elements of a circuit: inputs, outputs and components.
//!
//! Every element refers to wires purely by index into the flat value store
//! whose length the owning [`crate::Circuit`] records.

use vstd::prelude::*;

use crate::function::Function;

verus! {

/// An externally settable wire: wraps one value-store index.
#[derive(Clone, Copy, Debug)]
pub struct Input {
    pub value_index: usize,
}

/// A read-only observation point: wraps one value-store index.
#[derive(Clone, Copy, Debug)]
pub struct Output {
    pub value_index: usize,
}

/// A logic element binding input, output and owned value indices to a
/// [`Function`].  Input indices are read-only dependencies and may alias
/// other components' outputs (fan-out); output and owned indices are the
/// slots this component writes.
#[derive(Debug)]
pub struct Component {
    pub input_value_indices: Vec<usize>,
    pub output_value_indices: Vec<usize>,
    pub owned_value_indices: Vec<usize>,
    pub function: Function,
}

impl Input {
    pub(crate) fn new(value_index: usize) -> (r: Self)
        ensures
            r.value_index == value_index,
    {
        Input { value_index }
    }

    pub fn value_index(&self) -> (r: usize)
        ensures
            r == self.value_index,
    {
        self.value_index
    }
}

impl Output {
    pub(crate) fn new(value_index: usize) -> (r: Self)
        ensures
            r.value_index == value_index,
    {
        Output { value_index }
    }

    pub fn value_index(&self) -> (r: usize)
        ensures
            r == self.value_index,
    {
        self.value_index
    }
}

impl Component {
    pub fn new(
        function: Function,
        input_value_indices: Vec<usize>,
        output_value_indices: Vec<usize>,
        owned_value_indices: Vec<usize>,
    ) -> (r: Self)
        ensures
            r.function == function,
            r.input_value_indices@ == input_value_indices@,
            r.output_value_indices@ == output_value_indices@,
            r.owned_value_indices@ == owned_value_indices@,
    {
        Self { input_value_indices, output_value_indices, owned_value_indices, function }
    }

    pub fn input_value_indices(&self) -> (r: &[usize])
        ensures
            r@ == self.input_value_indices@,
    {
        self.input_value_indices.as_slice()
    }

    pub fn output_value_indices(&self) -> (r: &[usize])
        ensures
            r@ == self.output_value_indices@,
    {
        self.output_value_indices.as_slice()
    }

    pub fn owned_value_indices(&self) -> (r: &[usize])
        ensures
            r@ == self.owned_value_indices@,
    {
        self.owned_value_indices.as_slice()
    }

    pub fn function(&self) -> (r: &Function)
        ensures
            r == &self.function,
    {
        &self.function
    }
}

/// An element-for-element copy of an index list.
pub(crate) fn clone_index_list(v: &Vec<usize>) -> (r: Vec<usize>)
    ensures
        r@ == v@,
{
    let mut r: Vec<usize> = Vec::new();
    for i in 0..v.len()
        invariant
            r@ == v@.subrange(0, i as int),
    {
        r.push(v[i]);
        proof {
            assert(r@ =~= v@.subrange(0, i as int + 1));
        }
    }
    proof {
        assert(r@ =~= v@);
    }
    r
}

impl Clone for Component {
    fn clone(&self) -> (r: Self)
        ensures
            r@ == self@,
        decreases *self,
    {
        Component {
            input_value_indices: clone_index_list(&self.input_value_indices),
            output_value_indices: clone_index_list(&self.output_value_indices),
            owned_value_indices: clone_index_list(&self.owned_value_indices),
            function: self.function.clone(),
        }
    }
}

} // verus!
