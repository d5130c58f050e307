use crate::node::Node;
use crate::property::{first_cell, Property};
use vstd::prelude::*;

verus! {

/// A node seen as the controller that other nodes send their interrupts to.
#[derive(Clone, Copy)]
pub struct InterruptController<'a> {
    pub node: Node<'a>,
}

impl<'a> InterruptController<'a> {
    /// How many cells this controller asks for to name one interrupt.
    pub open spec fn spec_interrupt_cells(&self) -> Option<u32> {
        first_cell(self.node.spec_find_property("#interrupt-cells"@))
    }

    /// How many cells this controller asks for to name one interrupt, if it
    /// says so.
    pub fn interrupt_cells(&self) -> (r: Option<u32>)
        ensures
            r == self.spec_interrupt_cells(),
    {
        match self.node.find_property("#interrupt-cells") {
            Some(prop) => prop.get_u32(),
            None => None,
        }
    }
}

/// The `interrupts` property of a node as it is written, with the width that
/// the node's interrupt parent gives to each entry.
#[derive(Clone, Copy)]
pub struct InterruptInfo<'a> {
    pub cell_size: u32,
    pub prop: Property<'a>,
}

} // verus!
