use crate::define::Phandle;
use crate::fdt::Fdt;
use crate::node::Node;
use crate::property::first_cell;
use crate::read::{be_value, FdtReader};
use vstd::prelude::*;

verus! {

/// A reference to a clock: the node that provides it and the number by which
/// that node tells its clocks apart.
#[derive(Clone, Copy)]
pub struct ClockRef<'a> {
    pub node: Node<'a>,
    /// The first cell behind the handle; 0 where the provider asks for none.
    pub select: u32,
}

/// How many cells a provider asks for behind its handle: what it declares as
/// `#clock-cells`, and none where it declares nothing.
pub open spec fn spec_clock_cells(provider: Node) -> nat {
    match first_cell(provider.spec_find_property("#clock-cells"@)) {
        Some(c) => c as nat,
        None => 0,
    }
}

/// The references that the payload of a `clocks` property holds: each is a
/// handle followed by as many cells as its provider asks for. The list ends
/// where the bytes do, at a handle that the tree does not resolve, or at a
/// reference that is cut short.
pub open spec fn parse_clocks<'a>(fdt: &'a Fdt<'a>, data: Seq<u8>) -> Seq<ClockRef<'a>>
    decreases data.len(),
{
    if data.len() < 4 {
        Seq::empty()
    } else {
        match fdt.spec_node_by_phandle(Phandle(be_value(data.take(4)) as u32)) {
            None => Seq::empty(),
            Some(node) => {
                let cells = spec_clock_cells(node);
                let rest = data.skip(4);
                if rest.len() < 4 * cells {
                    Seq::empty()
                } else {
                    seq![
                        ClockRef {
                            node,
                            select: if cells == 0 {
                                0
                            } else {
                                be_value(rest.take(4)) as u32
                            },
                        },
                    ] + parse_clocks(fdt, rest.skip(4 * cells as int))
                }
            },
        }
    }
}

/// The clock references of a node that have not been handed out yet.
#[derive(Clone, Copy)]
pub struct ClocksIter<'a> {
    fdt: &'a Fdt<'a>,
    data: FdtReader<'a>,
}

impl<'a> View for ClocksIter<'a> {
    type V = Seq<ClockRef<'a>>;

    closed spec fn view(&self) -> Seq<ClockRef<'a>> {
        parse_clocks(self.fdt, self.data@)
    }
}

impl<'a> ClocksIter<'a> {
    /// Starts at the first reference of the node's `clocks` property. A node
    /// without that property has no references.
    pub fn new(node: &Node<'a>) -> (r: Self)
        ensures
            r@ == node.spec_clocks(),
    {
        match node.find_property("clocks") {
            Some(prop) => ClocksIter { fdt: node.fdt, data: prop.data },
            None => {
                let none: &'a [u8] = &[];
                ClocksIter { fdt: node.fdt, data: FdtReader::new(none) }
            },
        }
    }

    /// Hands out the next reference. Once there is none, there never is one
    /// again.
    pub fn next(&mut self) -> (r: Option<ClockRef<'a>>)
        ensures
            match r {
                Some(c) => old(self)@.len() > 0 && c == old(self)@[0]
                    && final(self)@ == old(self)@.skip(1),
                None => old(self)@.len() == 0 && final(self)@ == old(self)@,
            },
    {
        let ghost start = self.data@;
        let mut ahead: FdtReader<'a> = self.data;
        let handle: u32 = match ahead.take_u32() {
            Some(v) => v,
            None => {
                return None;
            },
        };
        let node: Node<'a> = match self.fdt.get_node_by_phandle(Phandle(handle)) {
            Some(n) => n,
            None => {
                return None;
            },
        };
        let cells: u32 = match node.find_property("#clock-cells") {
            Some(prop) => match prop.get_u32() {
                Some(c) => c,
                None => 0,
            },
            None => 0,
        };
        let behind: FdtReader<'a> = ahead;
        if (ahead.len() as u64) < 4 * (cells as u64) {
            return None;
        }
        let select: u32 = if cells == 0 {
            0
        } else {
            ahead.take_u32().unwrap()
        };
        ahead = behind;
        let _ = ahead.take((4 * (cells as u64)) as usize);
        proof {
            assert(parse_clocks(self.fdt, start).skip(1) =~= parse_clocks(self.fdt, ahead@));
        }
        self.data = ahead;
        Some(ClockRef { node, select })
    }
}

} // verus!
