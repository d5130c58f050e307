use crate::clocks::{parse_clocks, ClockRef, ClocksIter};
use crate::define::{
    parse_ranges, parse_reg, translate, FdtRange, FdtRangeIter, FdtRangeSilce, FdtReg, Phandle,
};
use crate::error::{FdtError, FdtResult};
use crate::fdt::Fdt;
use crate::interrupt::{InterruptController, InterruptInfo};
use crate::meta::{
    context_below, lemma_context_is_nearest, nearest_address_cells, nearest_size_cells, MetaData,
};
use crate::property::{find_named, first_cell, parse_props, Property, PropertyView};
use crate::read::{spec_take_str, FdtReader, Token};
use crate::text::{first_nul, str_eq};
use vstd::prelude::*;

verus! {

/// One node of the tree: where its body begins in the blob, and the context
/// it was built with.
#[derive(Clone, Copy)]
pub struct Node<'a> {
    /// Depth in the tree; the root is at 0.
    pub level: usize,
    pub name: &'a str,
    pub fdt: &'a Fdt<'a>,
    /// What the nodes above declare, the nearest declaration of each field.
    pub meta_parents: MetaData<'a>,
    /// What this node declares itself.
    pub meta: MetaData<'a>,
    /// The bytes just behind the node's name.
    pub body: FdtReader<'a>,
}

/// The properties of a node that have not been handed out yet.
#[derive(Clone, Copy)]
pub struct PropIter<'a> {
    fdt: &'a Fdt<'a>,
    reader: FdtReader<'a>,
}

impl<'a> View for PropIter<'a> {
    type V = Seq<PropertyView>;

    closed spec fn view(&self) -> Seq<PropertyView> {
        parse_props(self.reader@, self.fdt.strings())
    }
}

impl<'a> PropIter<'a> {
    /// Hands out the next property. Once there is none, there never is one
    /// again.
    pub fn next(&mut self) -> (r: Option<Property<'a>>)
        ensures
            match r {
                Some(p) => old(self)@.len() > 0 && p@ == old(self)@[0]
                    && final(self)@ == old(self)@.skip(1),
                None => old(self)@.len() == 0 && final(self)@ == old(self)@,
            },
    {
        let ghost strings = self.fdt.strings();
        let ghost start = self.reader@;
        let mut ahead: FdtReader<'a> = self.reader;
        loop
            invariant
                strings == self.fdt.strings(),
                start == old(self).reader@,
                self.reader == old(self).reader,
                self.fdt == old(self).fdt,
                parse_props(ahead@, strings) == parse_props(start, strings),
            decreases ahead@.len(),
        {
            match ahead.take_token() {
                Some(Token::Prop) => {
                    let prop: Option<Property<'a>> = ahead.take_prop(self.fdt);
                    if prop.is_some() {
                        assert(parse_props(start, strings).skip(1) =~= parse_props(
                            ahead@,
                            strings,
                        ));
                        self.reader = ahead;
                    }
                    return prop;
                },
                Some(Token::Nop) => {},
                _ => {
                    return None;
                },
            }
        }
    }
}

impl<'a> Node<'a> {
    pub fn new(
        fdt: &'a Fdt<'a>,
        level: usize,
        name: &'a str,
        reader: FdtReader<'a>,
        meta_parents: MetaData<'a>,
        meta: MetaData<'a>,
    ) -> (r: Self)
        ensures
            r == (Node { level, name, fdt, meta_parents, meta, body: reader }),
    {
        Node { fdt, level, body: reader, name, meta, meta_parents }
    }

    pub fn name(&self) -> (r: &'a str)
        ensures
            r == self.name,
    {
        self.name
    }

    /// The node's properties in the order they are written.
    pub open spec fn spec_propertys(&self) -> Seq<PropertyView> {
        parse_props(self.body@, self.fdt.strings())
    }

    /// The node's first property called `name`.
    pub open spec fn spec_find_property(&self, name: Seq<char>) -> Option<PropertyView> {
        find_named(self.spec_propertys(), name)
    }

    /// Starts a walk over the node's properties. Each walk has a cursor of
    /// its own and begins at the first property.
    pub fn propertys(&self) -> (r: PropIter<'a>)
        ensures
            r@ == self.spec_propertys(),
    {
        PropIter { reader: self.body, fdt: self.fdt }
    }

    /// The first property called `name`.
    pub fn find_property(&self, name: &str) -> (r: Option<Property<'a>>)
        ensures
            match r {
                Some(p) => self.spec_find_property(name@) == Some(p@),
                None => self.spec_find_property(name@) is None,
            },
    {
        let mut iter: PropIter<'a> = self.propertys();
        loop
            invariant
                find_named(iter@, name@) == self.spec_find_property(name@),
            decreases iter@.len(),
        {
            match iter.next() {
                Some(p) => {
                    if str_eq(p.name, name) {
                        return Some(p);
                    }
                },
                None => {
                    return None;
                },
            }
        }
    }

    /// The width of an address on this node's bus: the node's own
    /// declaration, else the inherited one.
    pub open spec fn spec_address_cells(&self) -> Option<u8> {
        if self.meta.address_cells is Some {
            self.meta.address_cells
        } else {
            self.meta_parents.address_cells
        }
    }

    /// The width of a size on this node's bus: the node's own declaration,
    /// else the inherited one.
    pub open spec fn spec_size_cells(&self) -> Option<u8> {
        if self.meta.size_cells is Some {
            self.meta.size_cells
        } else {
            self.meta_parents.size_cells
        }
    }

    /// The windows that addresses of this node are translated through: the
    /// node's own `ranges` where it has them, else the inherited ones, never
    /// both.
    pub open spec fn spec_ranges(&self) -> Seq<FdtRange> {
        match self.meta.range {
            Some(own) => own@,
            None => match self.meta_parents.range {
                Some(inherited) => inherited@,
                None => Seq::empty(),
            },
        }
    }

    /// Whether the cell counts are there, and of a width that `reg` can be
    /// read with.
    pub open spec fn reg_cells_ok(&self) -> bool {
        &&& self.spec_address_cells() matches Some(a) && 1 <= a <= 2
        &&& self.spec_size_cells() matches Some(s) && s <= 2
    }

    /// Whether the cell counts that `ranges` is written in are there: the
    /// node's own two and the address width above it, one or two cells each.
    pub open spec fn ranges_cells_ok(&self) -> bool {
        &&& self.meta.address_cells matches Some(a) && 1 <= a <= 2
        &&& self.meta_parents.address_cells matches Some(p) && 1 <= p <= 2
        &&& self.meta.size_cells matches Some(s) && 1 <= s <= 2
    }

    /// The handle of the node that interrupts go to: the node's own
    /// declaration, else the inherited one.
    pub open spec fn spec_interrupt_parent_phandle(&self) -> Option<Phandle> {
        if self.meta.interrupt_parent is Some {
            self.meta.interrupt_parent
        } else {
            self.meta_parents.interrupt_parent
        }
    }

    /// The controller that the node's interrupts go to. There is none where
    /// neither the node nor a node above names one, and none where the handle
    /// that is named resolves to nothing.
    pub open spec fn spec_interrupt_parent(&self) -> Option<InterruptController<'a>> {
        match self.spec_interrupt_parent_phandle() {
            Some(phandle) => match self.fdt.spec_node_by_phandle(phandle) {
                Some(node) => Some(InterruptController { node }),
                None => None,
            },
            None => None,
        }
    }

    /// The node's clock references.
    pub open spec fn spec_clocks(&self) -> Seq<ClockRef<'a>> {
        match self.spec_find_property("clocks"@) {
            Some(p) => parse_clocks(self.fdt, p.data),
            None => Seq::empty(),
        }
    }

    /// The entries of the node's `reg` property, each address translated
    /// through [`Node::spec_ranges`].
    pub open spec fn spec_reg(&self) -> Option<Seq<FdtReg>> {
        match self.spec_find_property("reg"@) {
            Some(p) => Some(
                parse_reg(
                    p.data,
                    self.spec_address_cells()->0 as nat,
                    self.spec_size_cells()->0 as nat,
                    self.spec_ranges(),
                ),
            ),
            None => None,
        }
    }

    /// The entries of `reg`, if the node has that property.
    pub fn reg(&self) -> (r: Option<RegIter<'a>>)
        requires
            self.spec_find_property("reg"@) is Some ==> self.reg_cells_ok(),
        ensures
            match r {
                Some(iter) => self.spec_reg() == Some(iter@) && iter.ranges() == self.spec_ranges()
                    && Some(iter.size_cells()) == self.spec_size_cells(),
                None => self.spec_reg() is None,
            },
    {
        let reg: Property<'a> = match self.find_property("reg") {
            Some(p) => p,
            None => {
                return None;
            },
        };
        Some(RegIter { size_cell: self.size_cells().unwrap(), prop: reg, node: *self })
    }

    pub fn address_cells(&self) -> (r: Option<u8>)
        ensures
            r == self.spec_address_cells(),
    {
        if let Some(a) = self.meta.address_cells {
            return Some(a);
        }
        self.meta_parents.address_cells
    }

    pub fn size_cells(&self) -> (r: Option<u8>)
        ensures
            r == self.spec_size_cells(),
    {
        if let Some(a) = self.meta.size_cells {
            return Some(a);
        }
        self.meta_parents.size_cells
    }

    /// The windows that addresses of this node are translated through.
    pub fn ranges(&self) -> (r: FdtRangeIter<'a>)
        ensures
            r@ == self.spec_ranges(),
    {
        match self.meta.range {
            Some(own) => own.iter(),
            None => match self.meta_parents.range {
                Some(inherited) => inherited.iter(),
                None => FdtRangeIter::empty(),
            },
        }
    }

    /// The node's own `ranges` property as it is written, untranslated, with
    /// the widths its entries are written in.
    pub fn node_ranges(&self) -> (r: Option<FdtRangeSilce<'a>>)
        requires
            self.spec_find_property("ranges"@) is Some ==> self.ranges_cells_ok(),
        ensures
            match self.spec_find_property("ranges"@) {
                Some(p) => r matches Some(s) && s@ == parse_ranges(
                    p.data,
                    self.meta.address_cells->0 as nat,
                    self.meta_parents.address_cells->0 as nat,
                    self.meta.size_cells->0 as nat,
                ),
                None => r is None,
            },
    {
        let prop: Property<'a> = match self.find_property("ranges") {
            Some(p) => p,
            None => {
                return None;
            },
        };
        Some(
            FdtRangeSilce::new(
                self.meta.address_cells.unwrap(),
                self.meta_parents.address_cells.unwrap(),
                self.meta.size_cells.unwrap(),
                prop.data,
            ),
        )
    }

    /// The handle that the node's own `interrupt-parent` property holds,
    /// unresolved.
    pub fn node_interrupt_parent(&self) -> (r: Option<Phandle>)
        ensures
            r == match first_cell(self.spec_find_property("interrupt-parent"@)) {
                Some(v) => Some(Phandle(v)),
                None => None,
            },
    {
        let prop: Property<'a> = match self.find_property("interrupt-parent") {
            Some(p) => p,
            None => {
                return None;
            },
        };
        match prop.get_u32() {
            Some(v) => Some(Phandle::from(v)),
            None => None,
        }
    }

    /// The controller that the node's interrupts go to, named by the node or
    /// by the nearest node above that names one.
    pub fn interrupt_parent(&self) -> (r: Option<InterruptController<'a>>)
        ensures
            r == self.spec_interrupt_parent(),
            r is None <==> (self.spec_interrupt_parent_phandle() is None
                || self.fdt.spec_node_by_phandle(self.spec_interrupt_parent_phandle()->0)
                is None),
    {
        let phandle: Phandle = match self.meta.interrupt_parent {
            Some(p) => p,
            None => match self.meta_parents.interrupt_parent {
                Some(p) => p,
                None => {
                    return None;
                },
            },
        };
        match self.fdt.get_node_by_phandle(phandle) {
            Some(node) => Some(InterruptController { node }),
            None => None,
        }
    }

    /// The strings of the `compatible` property, if the node has that
    /// property. A string that is not UTF-8 shows as an error among them.
    pub fn compatible(&self) -> (r: Option<CompatibleIter<'a>>)
        ensures
            match self.spec_find_property("compatible"@) {
                Some(p) => r matches Some(iter) && iter@ == parse_compatible(p.data),
                None => r is None,
            },
    {
        match self.find_property("compatible") {
            Some(prop) => Some(CompatibleIter { value: prop.data }),
            None => None,
        }
    }

    /// The strings of the `compatible` property up to the first that cannot
    /// be read; none where the node has no such property.
    pub fn compatibles(&self) -> (r: CompatiblesIter<'a>)
        ensures
            r@ == match self.spec_find_property("compatible"@) {
                Some(p) => ok_prefix(parse_compatible(p.data)),
                None => Seq::empty(),
            },
    {
        CompatiblesIter { cap_raw: self.compatible() }
    }

    /// The handle under which other nodes refer to this one.
    pub fn phandle(&self) -> (r: Option<Phandle>)
        ensures
            r == match first_cell(self.spec_find_property("phandle"@)) {
                Some(v) => Some(Phandle(v)),
                None => None,
            },
    {
        let prop: Property<'a> = match self.find_property("phandle") {
            Some(p) => p,
            None => {
                return None;
            },
        };
        match prop.get_u32() {
            Some(v) => Some(Phandle::from(v)),
            None => None,
        }
    }

    /// The node's `interrupts` property with the entry width that its
    /// interrupt parent declares. There is none where the property, the
    /// parent or the parent's declaration is missing.
    pub fn interrupts(&self) -> (r: Option<InterruptInfo<'a>>)
        ensures
            match (
                self.spec_find_property("interrupts"@),
                self.spec_interrupt_parent(),
            ) {
                (Some(p), Some(parent)) => match parent.spec_interrupt_cells() {
                    Some(cells) => r matches Some(info) && info.cell_size == cells && info.prop@
                        == p,
                    None => r is None,
                },
                _ => r is None,
            },
    {
        let prop: Property<'a> = match self.find_property("interrupts") {
            Some(p) => p,
            None => {
                return None;
            },
        };
        let parent: InterruptController<'a> = match self.interrupt_parent() {
            Some(c) => c,
            None => {
                return None;
            },
        };
        match parent.interrupt_cells() {
            Some(cell_size) => Some(InterruptInfo { cell_size, prop }),
            None => None,
        }
    }

    /// The clocks that the node's `clocks` property refers to.
    pub fn clocks(&self) -> (r: ClocksIter<'a>)
        ensures
            r@ == self.spec_clocks(),
    {
        ClocksIter::new(self)
    }

    /// The first cell of the `clock-frequency` property.
    pub fn clock_frequency(&self) -> (r: Option<u32>)
        ensures
            r == first_cell(self.spec_find_property("clock-frequency"@)),
    {
        match self.find_property("clock-frequency") {
            Some(prop) => prop.get_u32(),
            None => None,
        }
    }
}

/// The entries of a `reg` property that have not been handed out yet.
#[derive(Clone, Copy)]
pub struct RegIter<'a> {
    size_cell: u8,
    prop: Property<'a>,
    node: Node<'a>,
}

impl<'a> View for RegIter<'a> {
    type V = Seq<FdtReg>;

    open spec fn view(&self) -> Seq<FdtReg> {
        parse_reg(
            self.payload(),
            self.address_cells() as nat,
            self.size_cells() as nat,
            self.ranges(),
        )
    }
}

impl<'a> RegIter<'a> {
    #[verifier::type_invariant]
    spec fn cells_ok(self) -> bool {
        &&& self.size_cell <= 2
        &&& self.node.spec_address_cells() matches Some(a) && 1 <= a <= 2
    }

    /// The bytes that are still to be read.
    pub closed spec fn payload(&self) -> Seq<u8> {
        self.prop.data@
    }

    /// How many cells an address takes.
    pub closed spec fn address_cells(&self) -> u8 {
        self.node.spec_address_cells()->0
    }

    /// How many cells a size takes.
    pub closed spec fn size_cells(&self) -> u8 {
        self.size_cell
    }

    /// The windows that each address is translated through.
    pub closed spec fn ranges(&self) -> Seq<FdtRange> {
        self.node.spec_ranges()
    }

    /// Hands out the next entry: its address as written, that address
    /// translated, and its size where sizes have cells.
    pub fn next(&mut self) -> (r: Option<FdtReg>)
        ensures
            match r {
                Some(e) => old(self)@.len() > 0 && e == old(self)@[0]
                    && final(self)@ == old(self)@.skip(1)
                    && e.address == translate(old(self).ranges(), e.child_bus_address as int)
                    && (e.size is Some <==> old(self).size_cells() != 0),
                None => old(self)@.len() == 0 && final(self)@ == old(self)@,
            },
            final(self).ranges() == old(self).ranges(),
            final(self).size_cells() == old(self).size_cells(),
            final(self).address_cells() == old(self).address_cells(),
    {
        proof {
            use_type_invariant(&*self);
        }
        let ghost bytes = self.prop.data@;
        let child_address_cell: u8 = self.node.address_cells().unwrap();
        let mut data: FdtReader<'a> = self.prop.data;
        let child_bus_address: u128 = match data.take_by_cell_size(child_address_cell) {
            Some(v) => v,
            None => {
                return None;
            },
        };
        let mut address: u128 = child_bus_address;
        let mut windows: FdtRangeIter<'a> = self.node.ranges();
        let ghost all = windows@;
        let ghost mut seen: Seq<FdtRange> = Seq::empty();
        loop
            invariant
                seen + windows@ == all,
                address == translate(seen, child_bus_address as int),
                child_bus_address <= u64::MAX,
            ensures
                address == translate(all, child_bus_address as int),
            decreases windows@.len(),
        {
            let one: FdtRange = match windows.next() {
                Some(one) => one,
                None => {
                    assert(seen =~= all);
                    break ;
                },
            };
            if child_bus_address >= one.child_bus_address && child_bus_address
                < one.child_bus_address + one.size as u128 {
                address = child_bus_address - one.child_bus_address + one.parent_bus_address;
            }
            proof {
                let grown = seen.push(one);
                assert(grown.drop_last() =~= seen);
                assert(grown + windows@ =~= all);
                seen = grown;
            }
        }
        let size: Option<usize> = if self.size_cell > 0 {
            match data.take_by_cell_size(self.size_cell) {
                Some(v) => Some(
                    #[verifier::truncate]
                    (v as usize),
                ),
                None => {
                    return None;
                },
            }
        } else {
            None
        };
        proof {
            let a = 4 * child_address_cell as int;
            let n = a + 4 * self.size_cell as int;
            assert(bytes.skip(a).skip(n - a) =~= bytes.skip(n));
            assert(old(self)@.skip(1) =~= parse_reg(
                bytes.skip(n),
                child_address_cell as nat,
                self.size_cell as nat,
                all,
            ));
        }
        self.prop = Property { name: self.prop.name, data };
        Some(FdtReg { address, child_bus_address, size })
    }
}

/// What a string item of `compatible` is to a contract.
pub open spec fn item_view(item: FdtResult<&str>) -> Result<Seq<char>, FdtError> {
    match item {
        Ok(s) => Ok(s@),
        Err(e) => Err(e),
    }
}

/// The items that a list of zero-terminated strings decodes to. A string that
/// is not UTF-8 shows as an error and the list goes on behind it. The list
/// ends where the bytes end, at an empty string, or at a string that the
/// bytes end in the middle of.
pub open spec fn parse_compatible(bytes: Seq<u8>) -> Seq<Result<Seq<char>, FdtError>>
    decreases bytes.len(),
{
    let n = first_nul(bytes);
    let (item, rest) = spec_take_str(bytes);
    if n < 0 || n >= bytes.len() {
        Seq::empty()
    } else {
        match item {
            Ok(s) => if s.len() == 0 {
                Seq::empty()
            } else {
                seq![item] + parse_compatible(rest)
            },
            Err(_) => seq![item] + parse_compatible(rest),
        }
    }
}

/// The strings in front of the first error.
pub open spec fn ok_prefix(items: Seq<Result<Seq<char>, FdtError>>) -> Seq<Seq<char>>
    decreases items.len(),
{
    if items.len() == 0 {
        Seq::empty()
    } else {
        match items[0] {
            Ok(s) => seq![s] + ok_prefix(items.skip(1)),
            Err(_) => Seq::empty(),
        }
    }
}

/// The items of a `compatible` property that have not been handed out yet.
#[derive(Clone, Copy)]
pub struct CompatibleIter<'a> {
    value: FdtReader<'a>,
}

impl<'a> View for CompatibleIter<'a> {
    type V = Seq<Result<Seq<char>, FdtError>>;

    closed spec fn view(&self) -> Seq<Result<Seq<char>, FdtError>> {
        parse_compatible(self.value@)
    }
}

impl<'a> CompatibleIter<'a> {
    /// Hands out the next item. Once there is none, there never is one
    /// again.
    pub fn next(&mut self) -> (r: Option<FdtResult<&'a str>>)
        ensures
            match r {
                Some(item) => old(self)@.len() > 0 && item_view(item) == old(self)@[0]
                    && final(self)@ == old(self)@.skip(1),
                None => old(self)@.len() == 0 && final(self)@ == old(self)@,
            },
    {
        let ghost bytes = self.value@;
        let mut ahead: FdtReader<'a> = self.value;
        proof {
            crate::text::lemma_first_nul(bytes);
        }
        match ahead.take_str() {
            Ok(s) => {
                if s.is_empty() {
                    None
                } else {
                    assert(parse_compatible(bytes).skip(1) =~= parse_compatible(ahead@));
                    self.value = ahead;
                    Some(Ok(s))
                }
            },
            Err(FdtError::Eof) => None,
            Err(e) => {
                assert(parse_compatible(bytes).skip(1) =~= parse_compatible(ahead@));
                self.value = ahead;
                Some(Err(e))
            },
        }
    }
}

/// The strings of a `compatible` property that have not been handed out yet,
/// as far as they can be read.
#[derive(Clone, Copy)]
pub struct CompatiblesIter<'a> {
    cap_raw: Option<CompatibleIter<'a>>,
}

impl<'a> View for CompatiblesIter<'a> {
    type V = Seq<Seq<char>>;

    closed spec fn view(&self) -> Seq<Seq<char>> {
        match self.cap_raw {
            Some(caps) => ok_prefix(caps@),
            None => Seq::empty(),
        }
    }
}

impl<'a> CompatiblesIter<'a> {
    /// Hands out the next string. Once there is none, there never is one
    /// again.
    pub fn next(&mut self) -> (r: Option<&'a str>)
        ensures
            match r {
                Some(s) => old(self)@.len() > 0 && s@ == old(self)@[0]
                    && final(self)@ == old(self)@.skip(1),
                None => old(self)@.len() == 0 && final(self)@ == old(self)@,
            },
    {
        let mut caps: CompatibleIter<'a> = match self.cap_raw {
            Some(caps) => caps,
            None => {
                return None;
            },
        };
        match caps.next() {
            Some(Ok(cap)) => {
                self.cap_raw = Some(caps);
                Some(cap)
            },
            _ => {
                self.cap_raw = None;
                None
            },
        }
    }
}

/// A node resolves each cell count to the nearest declaration on the way up:
/// its own where it has one, else that of the closest node above that has
/// one. `ancestors` is what the nodes above declare, the root first.
pub proof fn lemma_cells_nearest_declaration<'a>(node: Node<'a>, ancestors: Seq<MetaData<'a>>)
    requires
        node.meta_parents == context_below(ancestors),
    ensures
        node.spec_address_cells() == nearest_address_cells(ancestors.push(node.meta)),
        node.spec_size_cells() == nearest_size_cells(ancestors.push(node.meta)),
        node.meta.address_cells is Some ==> node.spec_address_cells() == node.meta.address_cells,
        node.meta.size_cells is Some ==> node.spec_size_cells() == node.meta.size_cells,
{
    lemma_context_is_nearest(ancestors);
    assert(ancestors.push(node.meta).drop_last() =~= ancestors);
}

/// Every walk that `propertys` starts on a node goes over the same
/// properties in the same order, however far another walk has gone.
pub proof fn lemma_propertys_restartable<'a>(
    node: Node<'a>,
    first: PropIter<'a>,
    second: PropIter<'a>,
)
    requires
        first@ == node.spec_propertys(),
        second@ == node.spec_propertys(),
    ensures
        first@ == second@,
{
}

} // verus!
