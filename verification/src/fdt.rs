use crate::define::Phandle;
use crate::meta::MetaData;
use crate::node::Node;
use crate::read::FdtReader;
use crate::text::{cstr_at_front, decode_str, find_nul};
use vstd::prelude::*;
use vstd::slice::slice_subrange;

verus! {

/// The string that starts at `offset` in the string table.
pub open spec fn spec_str_at(strings: Seq<u8>, offset: nat) -> Option<Seq<char>> {
    if offset > strings.len() {
        None
    } else {
        cstr_at_front(strings.skip(offset as int))
    }
}

/// Where a node that can be referred to lies, and what it inherited and
/// declares: all that makes a [`Node`] but the tree itself.
#[derive(Clone, Copy)]
pub struct IndexedNode<'a> {
    pub level: usize,
    pub name: &'a str,
    pub body: FdtReader<'a>,
    pub meta_parents: MetaData<'a>,
    pub meta: MetaData<'a>,
}

/// The first entry filed under `phandle`.
pub open spec fn find_indexed<'a>(
    index: Seq<(Phandle, IndexedNode<'a>)>,
    phandle: Phandle,
) -> Option<IndexedNode<'a>>
    decreases index.len(),
{
    if index.len() == 0 {
        None
    } else if index[0].0 == phandle {
        Some(index[0].1)
    } else {
        find_indexed(index.skip(1), phandle)
    }
}

/// The root of a tree: the table that property names come from, and the
/// index that resolves handles to nodes.
pub struct Fdt<'a> {
    strings: &'a [u8],
    index: Vec<(Phandle, IndexedNode<'a>)>,
}

impl<'a> Fdt<'a> {
    /// The string table.
    pub closed spec fn strings(&self) -> Seq<u8> {
        self.strings@
    }

    /// The index, in the order it was given.
    pub closed spec fn index(&self) -> Seq<(Phandle, IndexedNode<'a>)> {
        self.index@
    }

    /// The node that `phandle` refers to.
    pub open spec fn spec_node_by_phandle(&self, phandle: Phandle) -> Option<Node<'a>> {
        match find_indexed(self.index(), phandle) {
            Some(e) => Some(
                Node {
                    level: e.level,
                    name: e.name,
                    fdt: self,
                    meta_parents: e.meta_parents,
                    meta: e.meta,
                    body: e.body,
                },
            ),
            None => None,
        }
    }

    pub fn new(strings: &'a [u8], index: Vec<(Phandle, IndexedNode<'a>)>) -> (r: Self)
        ensures
            r.strings() == strings@,
            r.index() == index@,
    {
        Fdt { strings, index }
    }

    /// Looks a name up in the string table.
    pub fn get_str(&self, offset: usize) -> (r: Option<&'a str>)
        ensures
            match spec_str_at(self.strings(), offset as nat) {
                Some(chars) => r matches Some(s) && s@ == chars,
                None => r is None,
            },
    {
        let table: &'a [u8] = self.strings;
        if offset > table.len() {
            return None;
        }
        let tail: &'a [u8] = slice_subrange(table, offset, table.len());
        let n: usize = find_nul(tail);
        if n >= tail.len() {
            return None;
        }
        decode_str(slice_subrange(tail, 0, n))
    }

    /// Resolves a handle through the index. Of several entries under one
    /// handle the first counts.
    pub fn get_node_by_phandle(&'a self, phandle: Phandle) -> (r: Option<Node<'a>>)
        ensures
            r == self.spec_node_by_phandle(phandle),
    {
        let mut i: usize = 0;
        assert(self.index@.skip(0) =~= self.index@);
        while i < self.index.len()
            invariant
                i <= self.index@.len(),
                find_indexed(self.index@, phandle) == find_indexed(
                    self.index@.skip(i as int),
                    phandle,
                ),
            decreases self.index@.len() - i,
        {
            let entry: (Phandle, IndexedNode<'a>) = self.index[i];
            if entry.0 == phandle {
                return Some(
                    Node::new(
                        self,
                        entry.1.level,
                        entry.1.name,
                        entry.1.body,
                        entry.1.meta_parents,
                        entry.1.meta,
                    ),
                );
            }
            assert(self.index@.skip(i as int).skip(1) =~= self.index@.skip(i + 1));
            i += 1;
        }
        None
    }
}

} // verus!
