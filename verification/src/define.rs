use crate::read::{be_value, FdtReader};
use vstd::prelude::*;

verus! {

/// A handle by which one node refers to another. It has no meaning of its
/// own: the tree's index resolves it.
#[derive(Clone, Copy, Debug, PartialEq, Eq, Structural)]
pub struct Phandle(pub u32);

impl From<u32> for Phandle {
    fn from(value: u32) -> (r: Self) {
        Phandle(value)
    }
}

impl vstd::std_specs::convert::FromSpecImpl<u32> for Phandle {
    open spec fn obeys_from_spec() -> bool {
        true
    }

    open spec fn from_spec(v: u32) -> Self {
        Phandle(v)
    }
}

impl Phandle {
    pub fn as_usize(&self) -> (r: usize)
        ensures
            r == self.0,
    {
        self.0 as usize
    }
}

/// One entry of a `ranges` property: `size` addresses of the child bus,
/// starting at `child_bus_address`, appear on the parent bus starting at
/// `parent_bus_address`.
#[derive(Clone, Copy, Debug, PartialEq, Eq, Structural)]
pub struct FdtRange {
    pub child_bus_address: u128,
    pub parent_bus_address: u128,
    pub size: usize,
}

impl FdtRange {
    /// Whether the child-bus address `a` lies in this window.
    pub open spec fn covers(self, a: int) -> bool {
        self.child_bus_address <= a < self.child_bus_address + self.size
    }

    /// Where this window puts the child-bus address `a` on the parent bus.
    pub open spec fn map(self, a: int) -> int {
        a - self.child_bus_address + self.parent_bus_address
    }
}

/// The parent-bus address of the child-bus address `a` under `ranges`: the
/// last window that covers `a` decides, and an address that no window covers
/// stays as it is.
pub open spec fn translate(ranges: Seq<FdtRange>, a: int) -> int
    decreases ranges.len(),
{
    if ranges.len() == 0 {
        a
    } else if ranges.last().covers(a) {
        ranges.last().map(a)
    } else {
        translate(ranges.drop_last(), a)
    }
}

/// An address inside a window, with no later window covering it, is moved by
/// that window.
pub proof fn lemma_translate_last_match(ranges: Seq<FdtRange>, a: int, k: int)
    requires
        0 <= k < ranges.len(),
        ranges[k].child_bus_address <= a < ranges[k].child_bus_address + ranges[k].size,
        forall|j: int| k < j < ranges.len() ==> !ranges[j].covers(a),
    ensures
        translate(ranges, a) == a - ranges[k].child_bus_address + ranges[k].parent_bus_address,
    decreases ranges.len(),
{
    if k < ranges.len() - 1 {
        assert(!ranges[ranges.len() - 1].covers(a));
        lemma_translate_last_match(ranges.drop_last(), a, k);
    }
}

/// An address that no window covers translates to itself.
pub proof fn lemma_translate_no_match(ranges: Seq<FdtRange>, a: int)
    requires
        forall|j: int| 0 <= j < ranges.len() ==> !ranges[j].covers(a),
    ensures
        translate(ranges, a) == a,
    decreases ranges.len(),
{
    if ranges.len() > 0 {
        assert(!ranges[ranges.len() - 1].covers(a));
        lemma_translate_no_match(ranges.drop_last(), a);
    }
}

/// One entry of a `reg` property. `size` is absent, not zero, where the bus
/// gives sizes no cells.
#[derive(Clone, Copy, Debug, PartialEq, Eq, Structural)]
pub struct FdtReg {
    /// The address as the parent bus sees it.
    pub address: u128,
    /// The address as written, in terms of the node's own bus.
    pub child_bus_address: u128,
    pub size: Option<usize>,
}

/// The entries that `bytes` hold, each made of a child address, a parent
/// address and a size of the given widths in cells. Bytes at the end that do
/// not make a whole entry are left out.
pub open spec fn parse_ranges(
    bytes: Seq<u8>,
    child_cells: nat,
    parent_cells: nat,
    size_cells: nat,
) -> Seq<FdtRange>
    decreases bytes.len(),
{
    let c = 4 * child_cells as int;
    let p = 4 * parent_cells as int;
    let n = c + p + 4 * size_cells as int;
    if n == 0 || bytes.len() < n {
        Seq::empty()
    } else {
        seq![
            FdtRange {
                child_bus_address: be_value(bytes.take(c)) as u128,
                parent_bus_address: be_value(bytes.skip(c).take(p)) as u128,
                size: be_value(bytes.skip(c + p).take(n - c - p)) as usize,
            },
        ] + parse_ranges(bytes.skip(n), child_cells, parent_cells, size_cells)
    }
}

/// The entries that `bytes` hold, each made of an address of `address_cells`
/// cells and, where `size_cells` is not zero, a size of that many cells. The
/// address is translated through `ranges`. Bytes at the end that do not make
/// a whole entry are left out.
pub open spec fn parse_reg(
    bytes: Seq<u8>,
    address_cells: nat,
    size_cells: nat,
    ranges: Seq<FdtRange>,
) -> Seq<FdtReg>
    decreases bytes.len(),
{
    let a = 4 * address_cells as int;
    let n = a + 4 * size_cells as int;
    if a == 0 || bytes.len() < n {
        Seq::empty()
    } else {
        let child = be_value(bytes.take(a));
        seq![
            FdtReg {
                address: translate(ranges, child as int) as u128,
                child_bus_address: child as u128,
                size: if size_cells == 0 {
                    None
                } else {
                    Some(be_value(bytes.skip(a).take(n - a)) as usize)
                },
            },
        ] + parse_reg(bytes.skip(n), address_cells, size_cells, ranges)
    }
}

/// Every entry carries a size exactly when sizes have cells.
pub proof fn lemma_reg_size_iff_size_cells(
    bytes: Seq<u8>,
    address_cells: nat,
    size_cells: nat,
    ranges: Seq<FdtRange>,
    i: int,
)
    requires
        0 <= i < parse_reg(bytes, address_cells, size_cells, ranges).len(),
    ensures
        parse_reg(bytes, address_cells, size_cells, ranges)[i].size is Some <==> size_cells != 0,
    decreases bytes.len(),
{
    if i > 0 {
        let n = 4 * address_cells as int + 4 * size_cells as int;
        lemma_reg_size_iff_size_cells(bytes.skip(n), address_cells, size_cells, ranges, i - 1);
    }
}

/// The payload of a `ranges` property together with the three widths that
/// its entries are written in.
#[derive(Clone, Copy)]
pub struct FdtRangeSilce<'a> {
    address_cell: u8,
    address_cell_parent: u8,
    size_cell: u8,
    reader: FdtReader<'a>,
}

impl<'a> View for FdtRangeSilce<'a> {
    type V = Seq<FdtRange>;

    closed spec fn view(&self) -> Seq<FdtRange> {
        parse_ranges(
            self.reader@,
            self.address_cell as nat,
            self.address_cell_parent as nat,
            self.size_cell as nat,
        )
    }
}

impl<'a> FdtRangeSilce<'a> {
    #[verifier::type_invariant]
    spec fn widths_ok(self) -> bool {
        &&& 1 <= self.address_cell <= 2
        &&& 1 <= self.address_cell_parent <= 2
        &&& 1 <= self.size_cell <= 2
    }

    pub fn new(
        address_cell: u8,
        address_cell_parent: u8,
        size_cell: u8,
        reader: FdtReader<'a>,
    ) -> (r: Self)
        requires
            1 <= address_cell <= 2,
            1 <= address_cell_parent <= 2,
            1 <= size_cell <= 2,
        ensures
            r@ == parse_ranges(
                reader@,
                address_cell as nat,
                address_cell_parent as nat,
                size_cell as nat,
            ),
    {
        FdtRangeSilce { address_cell, address_cell_parent, size_cell, reader }
    }

    /// The payload as it is written.
    pub fn raw(&self) -> (r: FdtReader<'a>)
        ensures
            self@ == parse_ranges(
                r@,
                self.spec_widths().0 as nat,
                self.spec_widths().1 as nat,
                self.spec_widths().2 as nat,
            ),
    {
        self.reader
    }

    /// The widths of a child address, a parent address and a size.
    pub closed spec fn spec_widths(&self) -> (u8, u8, u8) {
        (self.address_cell, self.address_cell_parent, self.size_cell)
    }

    /// The widths, in cells, of a child address, a parent address and a
    /// size.
    pub fn widths(&self) -> (r: (u8, u8, u8))
        ensures
            r == self.spec_widths(),
            1 <= r.0 <= 2,
            1 <= r.1 <= 2,
            1 <= r.2 <= 2,
    {
        proof {
            use_type_invariant(self);
        }
        (self.address_cell, self.address_cell_parent, self.size_cell)
    }

    /// Starts at the first entry.
    pub fn iter(&self) -> (r: FdtRangeIter<'a>)
        ensures
            r@ == self@,
    {
        proof {
            use_type_invariant(self);
        }
        FdtRangeIter {
            address_cell: self.address_cell,
            address_cell_parent: self.address_cell_parent,
            size_cell: self.size_cell,
            reader: self.reader,
        }
    }
}

/// The entries of a `ranges` property that have not been handed out yet.
#[derive(Clone, Copy)]
pub struct FdtRangeIter<'a> {
    address_cell: u8,
    address_cell_parent: u8,
    size_cell: u8,
    reader: FdtReader<'a>,
}

impl<'a> View for FdtRangeIter<'a> {
    type V = Seq<FdtRange>;

    closed spec fn view(&self) -> Seq<FdtRange> {
        parse_ranges(
            self.reader@,
            self.address_cell as nat,
            self.address_cell_parent as nat,
            self.size_cell as nat,
        )
    }
}

impl<'a> FdtRangeIter<'a> {
    #[verifier::type_invariant]
    spec fn widths_ok(self) -> bool {
        &&& 1 <= self.address_cell <= 2
        &&& 1 <= self.address_cell_parent <= 2
        &&& 1 <= self.size_cell <= 2
    }

    /// A walk over no entries.
    pub fn empty() -> (r: Self)
        ensures
            r@ == Seq::<FdtRange>::empty(),
    {
        let none: &'a [u8] = &[];
        FdtRangeIter {
            address_cell: 1,
            address_cell_parent: 1,
            size_cell: 1,
            reader: FdtReader::new(none),
        }
    }

    /// Hands out the next entry. Both addresses of an entry fit in 64 bits.
    pub fn next(&mut self) -> (r: Option<FdtRange>)
        ensures
            match r {
                Some(x) => old(self)@.len() > 0 && x == old(self)@[0]
                    && final(self)@ == old(self)@.skip(1)
                    && x.child_bus_address <= u64::MAX
                    && x.parent_bus_address <= u64::MAX,
                None => old(self)@.len() == 0 && final(self)@ == old(self)@,
            },
    {
        proof {
            use_type_invariant(&*self);
        }
        let ghost bytes = self.reader@;
        let ghost c = 4 * self.address_cell as int;
        let ghost p = 4 * self.address_cell_parent as int;
        let ghost s = 4 * self.size_cell as int;
        let mut ahead: FdtReader<'a> = self.reader;
        let child: u128 = match ahead.take_by_cell_size(self.address_cell) {
            Some(v) => v,
            None => {
                return None;
            },
        };
        let parent: u128 = match ahead.take_by_cell_size(self.address_cell_parent) {
            Some(v) => v,
            None => {
                return None;
            },
        };
        let size: u128 = match ahead.take_by_cell_size(self.size_cell) {
            Some(v) => v,
            None => {
                return None;
            },
        };
        proof {
            assert(bytes.skip(c).skip(p) =~= bytes.skip(c + p));
            assert(bytes.skip(c + p).skip(s) =~= bytes.skip(c + p + s));
            assert(parse_ranges(
                bytes,
                self.address_cell as nat,
                self.address_cell_parent as nat,
                self.size_cell as nat,
            ).skip(1) =~= parse_ranges(
                bytes.skip(c + p + s),
                self.address_cell as nat,
                self.address_cell_parent as nat,
                self.size_cell as nat,
            ));
        }
        self.reader = ahead;
        Some(
            FdtRange {
                child_bus_address: child,
                parent_bus_address: parent,
                size: #[verifier::truncate]
                (size as usize),
            },
        )
    }
}

} // verus!
