use crate::error::FdtResult;
use crate::fdt::{spec_str_at, Fdt};
use crate::read::{be_value, read_cells, spec_take_str, FdtReader};
use vstd::prelude::*;

verus! {

/// A named value attached to a node. `data` is a cursor of its own over the
/// payload: reading from it disturbs nothing else.
#[derive(Clone, Copy)]
pub struct Property<'a> {
    pub name: &'a str,
    pub data: FdtReader<'a>,
}

/// What a property is to a contract: its name and its payload.
pub struct PropertyView {
    pub name: Seq<char>,
    pub data: Seq<u8>,
}

impl<'a> View for Property<'a> {
    type V = PropertyView;

    open spec fn view(&self) -> PropertyView {
        PropertyView { name: self.name@, data: self.data@ }
    }
}

/// Bytes that a payload of `len` bytes takes up once it is padded to whole
/// cells.
pub open spec fn padded_len(len: nat) -> nat {
    ((len + 3) / 4 * 4) as nat
}

/// The property that starts `bytes`, which begin just behind a property
/// token, and the bytes that follow it: a length, the offset of the name in
/// `strings`, the payload and its padding. There is none where the header or
/// the payload is cut short or the offset leads to no string; padding that is
/// cut short is let pass.
pub open spec fn spec_take_prop(bytes: Seq<u8>, strings: Seq<u8>) -> Option<
    (PropertyView, Seq<u8>),
> {
    if bytes.len() < 8 {
        None
    } else {
        let len = be_value(bytes.take(4));
        let nameoff = be_value(bytes.skip(4).take(4));
        let body = bytes.skip(8);
        if body.len() < len {
            None
        } else {
            match spec_str_at(strings, nameoff) {
                Some(name) => {
                    let used = if padded_len(len) <= body.len() {
                        padded_len(len) as int
                    } else {
                        body.len() as int
                    };
                    Some((PropertyView { name, data: body.take(len as int) }, body.skip(used)))
                },
                None => None,
            }
        }
    }
}

impl<'a> FdtReader<'a> {
    /// Reads the property that follows a property token. Where there is
    /// none, nothing is consumed.
    pub fn take_prop(&mut self, fdt: &Fdt<'a>) -> (r: Option<Property<'a>>)
        ensures
            match spec_take_prop(old(self)@, fdt.strings()) {
                Some((prop, rest)) => r matches Some(p) && p@ == prop && final(self)@ == rest,
                None => r is None && final(self)@ == old(self)@,
            },
    {
        let ghost bytes = self@;
        let mut ahead: FdtReader<'a> = *self;
        let len: u32 = match ahead.take_u32() {
            Some(v) => v,
            None => {
                return None;
            },
        };
        let nameoff: u32 = match ahead.take_u32() {
            Some(v) => v,
            None => {
                return None;
            },
        };
        assert(bytes.skip(4).skip(4) =~= bytes.skip(8));
        let data: &'a [u8] = match ahead.take(len as usize) {
            Some(v) => v,
            None => {
                return None;
            },
        };
        let name: &'a str = match fdt.get_str(nameoff as usize) {
            Some(v) => v,
            None => {
                return None;
            },
        };
        let pad: usize = ((4 - len % 4) % 4) as usize;
        let left: usize = ahead.len();
        let ghost before = ahead@;
        if left >= pad {
            let _ = ahead.take(pad);
        } else {
            let _ = ahead.take(left);
        }
        proof {
            let body = bytes.skip(8);
            assert(padded_len(len as nat) == len + pad);
            assert(before =~= body.skip(len as int));
            if left >= pad {
                assert(before.skip(pad as int) =~= body.skip(len + pad));
            } else {
                assert(before.skip(left as int) =~= body.skip(body.len() as int));
            }
        }
        *self = ahead;
        Some(Property { name, data: FdtReader::new(data) })
    }
}

impl<'a> Property<'a> {
    /// The whole payload.
    pub fn raw_value(&self) -> (r: &'a [u8])
        ensures
            r@ == self@.data,
    {
        self.data.remaining()
    }

    /// The first cell of the payload.
    pub fn u32(&self) -> (r: u32)
        requires
            self@.data.len() >= 4,
        ensures
            r == be_value(self@.data.take(4)),
    {
        let mut data: FdtReader<'a> = self.data;
        data.take_u32().unwrap()
    }

    /// The first two cells of the payload as one number.
    pub fn u64(&self) -> (r: u64)
        requires
            self@.data.len() >= 8,
        ensures
            r == be_value(self@.data.take(8)),
    {
        let mut data: FdtReader<'a> = self.data;
        data.take_u64().unwrap()
    }

    /// The first cell of the payload, where the payload holds one.
    pub fn get_u32(&self) -> (r: Option<u32>)
        ensures
            match read_cells(self@.data, 1) {
                Some(v) => r matches Some(x) && x as nat == v,
                None => r is None,
            },
    {
        let mut data: FdtReader<'a> = self.data;
        data.take_u32()
    }

    /// The payload read as one zero-terminated string.
    pub fn str(&self) -> (r: FdtResult<&'a str>)
        ensures
            match spec_take_str(self@.data).0 {
                Ok(chars) => r matches Ok(s) && s@ == chars,
                Err(e) => r == Err::<&str, crate::error::FdtError>(e),
            },
    {
        let mut data: FdtReader<'a> = self.data;
        data.take_str()
    }
}

/// The first cell of a property's payload, where there is such a property
/// and its payload holds a cell.
pub open spec fn first_cell(prop: Option<PropertyView>) -> Option<u32> {
    match prop {
        Some(p) => if p.data.len() >= 4 {
            Some(be_value(p.data.take(4)) as u32)
        } else {
            None
        },
        None => None,
    }
}

/// The properties at the front of a node's body, in the order they are
/// written. No-op tokens between them are passed over; the list ends at the
/// first token that is neither, at a property that cannot be read, or where
/// the bytes end.
pub open spec fn parse_props(bytes: Seq<u8>, strings: Seq<u8>) -> Seq<PropertyView>
    decreases bytes.len(),
{
    match crate::read::spec_take_token(bytes) {
        Some(crate::read::Token::Nop) => parse_props(bytes.skip(4), strings),
        Some(crate::read::Token::Prop) => match spec_take_prop(bytes.skip(4), strings) {
            Some((prop, rest)) => seq![prop] + parse_props(rest, strings),
            None => Seq::empty(),
        },
        _ => Seq::empty(),
    }
}

/// The first property called `name`.
pub open spec fn find_named(props: Seq<PropertyView>, name: Seq<char>) -> Option<PropertyView>
    decreases props.len(),
{
    if props.len() == 0 {
        None
    } else if props[0].name == name {
        Some(props[0])
    } else {
        find_named(props.skip(1), name)
    }
}

/// Among properties of one name the first in the list is the one found.
pub proof fn lemma_find_named_first(props: Seq<PropertyView>, name: Seq<char>, i: int)
    requires
        0 <= i < props.len(),
        props[i].name == name,
        forall|j: int| 0 <= j < i ==> props[j].name != name,
    ensures
        find_named(props, name) == Some(props[i]),
    decreases props.len(),
{
    if i > 0 {
        assert(props[0].name != name);
        let tail = props.skip(1);
        assert(tail[i - 1] == props[i]);
        assert forall|j: int| 0 <= j < i - 1 implies tail[j].name != name by {
            assert(tail[j] == props[j + 1]);
        }
        lemma_find_named_first(tail, name, i - 1);
    }
}

/// Nothing is found exactly when no property has the name.
pub proof fn lemma_find_named_none(props: Seq<PropertyView>, name: Seq<char>)
    ensures
        find_named(props, name) is None <==> forall|j: int|
            0 <= j < props.len() ==> props[j].name != name,
    decreases props.len(),
{
    if props.len() > 0 {
        let tail = props.skip(1);
        lemma_find_named_none(tail, name);
        if props[0].name != name {
            if find_named(tail, name) is None {
                assert forall|j: int| 0 <= j < props.len() implies props[j].name != name by {
                    if j > 0 {
                        assert(tail[j - 1] == props[j]);
                    }
                }
            } else {
                let j = choose|j: int| 0 <= j < tail.len() && tail[j].name == name;
                assert(props[j + 1] == tail[j]);
            }
        }
    }
}

} // verus!
