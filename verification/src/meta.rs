use crate::define::{FdtRangeSilce, Phandle};
use vstd::prelude::*;

verus! {

/// What a node declares for the nodes below it, or what it has from the
/// nodes above it. Each field stands alone: any of them may be absent.
#[derive(Clone, Copy)]
pub struct MetaData<'a> {
    pub address_cells: Option<u8>,
    pub size_cells: Option<u8>,
    pub range: Option<FdtRangeSilce<'a>>,
    pub interrupt_parent: Option<Phandle>,
}

impl<'a> Default for MetaData<'a> {
    fn default() -> (r: Self)
        ensures
            r == MetaData::spec_empty(),
    {
        MetaData { address_cells: None, size_cells: None, range: None, interrupt_parent: None }
    }
}

impl<'a> MetaData<'a> {
    /// Nothing declared.
    pub open spec fn spec_empty() -> Self {
        MetaData { address_cells: None, size_cells: None, range: None, interrupt_parent: None }
    }

    /// `own` laid over `self`: a field that `own` declares hides that of
    /// `self`.
    pub open spec fn spec_overlay(self, own: Self) -> Self {
        MetaData {
            address_cells: if own.address_cells is Some {
                own.address_cells
            } else {
                self.address_cells
            },
            size_cells: if own.size_cells is Some {
                own.size_cells
            } else {
                self.size_cells
            },
            range: if own.range is Some {
                own.range
            } else {
                self.range
            },
            interrupt_parent: if own.interrupt_parent is Some {
                own.interrupt_parent
            } else {
                self.interrupt_parent
            },
        }
    }

    /// The context to hand to the children of a node that inherited `self`
    /// and declares `own`.
    pub fn overlay(&self, own: &MetaData<'a>) -> (r: MetaData<'a>)
        ensures
            r == self.spec_overlay(*own),
    {
        MetaData {
            address_cells: if own.address_cells.is_some() {
                own.address_cells
            } else {
                self.address_cells
            },
            size_cells: if own.size_cells.is_some() {
                own.size_cells
            } else {
                self.size_cells
            },
            range: if own.range.is_some() {
                own.range
            } else {
                self.range
            },
            interrupt_parent: if own.interrupt_parent.is_some() {
                own.interrupt_parent
            } else {
                self.interrupt_parent
            },
        }
    }
}

/// The context below a chain of nodes, given what each declares, the root
/// first.
pub open spec fn context_below<'a>(chain: Seq<MetaData<'a>>) -> MetaData<'a>
    decreases chain.len(),
{
    if chain.len() == 0 {
        MetaData::spec_empty()
    } else {
        context_below(chain.drop_last()).spec_overlay(chain.last())
    }
}

/// The `address_cells` of the last node in the chain that declares one.
pub open spec fn nearest_address_cells<'a>(chain: Seq<MetaData<'a>>) -> Option<u8>
    decreases chain.len(),
{
    if chain.len() == 0 {
        None
    } else if chain.last().address_cells is Some {
        chain.last().address_cells
    } else {
        nearest_address_cells(chain.drop_last())
    }
}

/// The `size_cells` of the last node in the chain that declares one.
pub open spec fn nearest_size_cells<'a>(chain: Seq<MetaData<'a>>) -> Option<u8>
    decreases chain.len(),
{
    if chain.len() == 0 {
        None
    } else if chain.last().size_cells is Some {
        chain.last().size_cells
    } else {
        nearest_size_cells(chain.drop_last())
    }
}

/// The context below a chain holds, for both cell counts, the nearest
/// declaration walking up from the end of the chain.
pub proof fn lemma_context_is_nearest<'a>(chain: Seq<MetaData<'a>>)
    ensures
        context_below(chain).address_cells == nearest_address_cells(chain),
        context_below(chain).size_cells == nearest_size_cells(chain),
    decreases chain.len(),
{
    if chain.len() > 0 {
        lemma_context_is_nearest(chain.drop_last());
    }
}

} // verus!
