use crate::error::{FdtError, FdtResult};
use crate::text::{decode_str, find_nul, first_nul};
use vstd::prelude::*;
use vstd::slice::slice_subrange;
use vstd::utf8::{decode_utf8, valid_utf8};

verus! {

/// Big-endian value of a byte string: the first byte is the most significant.
pub open spec fn be_value(bytes: Seq<u8>) -> nat
    decreases bytes.len(),
{
    if bytes.len() == 0 {
        0
    } else {
        be_value(bytes.drop_last()) * 256 + bytes.last() as nat
    }
}

/// The value of the first `cells` 32-bit big-endian words of `bytes`, if
/// that many are there.
pub open spec fn read_cells(bytes: Seq<u8>, cells: nat) -> Option<nat> {
    if bytes.len() >= 4 * cells {
        Some(be_value(bytes.take(4 * cells as int)))
    } else {
        None
    }
}

/// One more byte multiplies the value so far by 256 and adds the byte.
pub proof fn lemma_be_value_step(bytes: Seq<u8>, k: int)
    requires
        0 < k <= bytes.len(),
    ensures
        be_value(bytes.take(k)) == be_value(bytes.take(k - 1)) * 256 + bytes[k - 1] as nat,
{
    assert(bytes.take(k).drop_last() =~= bytes.take(k - 1));
}

/// A value of `n` bytes is below `256^n`, spelled out for one and two cells.
pub proof fn lemma_be_value_cells(bytes: Seq<u8>)
    ensures
        bytes.len() >= 4 ==> be_value(bytes.take(4)) == bytes[0] as nat * 0x100_0000 + bytes[1] as nat
            * 0x1_0000 + bytes[2] as nat * 0x100 + bytes[3] as nat,
        bytes.len() >= 4 ==> be_value(bytes.take(4)) <= u32::MAX,
        bytes.len() >= 8 ==> be_value(bytes.take(8)) == be_value(bytes.take(4)) * 0x1_0000_0000
            + be_value(bytes.skip(4).take(4)),
        bytes.len() >= 8 ==> be_value(bytes.take(8)) <= u64::MAX,
{
    if bytes.len() >= 4 {
        assert(be_value(bytes.take(0)) == 0);
        lemma_be_value_step(bytes, 1);
        lemma_be_value_step(bytes, 2);
        lemma_be_value_step(bytes, 3);
        lemma_be_value_step(bytes, 4);
    }
    if bytes.len() >= 8 {
        lemma_be_value_step(bytes, 5);
        lemma_be_value_step(bytes, 6);
        lemma_be_value_step(bytes, 7);
        lemma_be_value_step(bytes, 8);
        let tail = bytes.skip(4);
        assert(be_value(tail.take(0)) == 0);
        lemma_be_value_step(tail, 1);
        lemma_be_value_step(tail, 2);
        lemma_be_value_step(tail, 3);
        lemma_be_value_step(tail, 4);
    }
}

/// The words that structure a node's body.
#[derive(Clone, Copy, Debug, PartialEq, Eq, Structural)]
pub enum Token {
    BeginNode,
    EndNode,
    Prop,
    Nop,
    End,
}

/// The token that a 32-bit word stands for.
pub open spec fn token_of(word: nat) -> Option<Token> {
    if word == 1 {
        Some(Token::BeginNode)
    } else if word == 2 {
        Some(Token::EndNode)
    } else if word == 3 {
        Some(Token::Prop)
    } else if word == 4 {
        Some(Token::Nop)
    } else if word == 9 {
        Some(Token::End)
    } else {
        None
    }
}

/// The token at the front of `bytes`.
pub open spec fn spec_take_token(bytes: Seq<u8>) -> Option<Token> {
    match read_cells(bytes, 1) {
        Some(word) => token_of(word),
        None => None,
    }
}

/// What reading one zero-terminated string from the front of `bytes` gives,
/// and the bytes that are left after it.
///
/// Without a terminator nothing is read. With one, the cursor moves past it
/// whether or not the bytes before it are UTF-8.
pub open spec fn spec_take_str(bytes: Seq<u8>) -> (Result<Seq<char>, FdtError>, Seq<u8>) {
    let n = first_nul(bytes);
    if n >= bytes.len() {
        (Err(FdtError::Eof), bytes)
    } else if valid_utf8(bytes.take(n)) {
        (Ok(decode_utf8(bytes.take(n))), bytes.skip(n + 1))
    } else {
        (Err(FdtError::Utf8Parse), bytes.skip(n + 1))
    }
}

impl Token {
    pub fn from_u32(word: u32) -> (r: Option<Token>)
        ensures
            r == token_of(word as nat),
    {
        if word == 1 {
            Some(Token::BeginNode)
        } else if word == 2 {
            Some(Token::EndNode)
        } else if word == 3 {
            Some(Token::Prop)
        } else if word == 4 {
            Some(Token::Nop)
        } else if word == 9 {
            Some(Token::End)
        } else {
            None
        }
    }
}

/// A cursor over the bytes that are still to be read.
///
/// Copying a cursor is free and the copy advances on its own.
#[derive(Clone, Copy)]
pub struct FdtReader<'a> {
    bytes: &'a [u8],
}

impl<'a> View for FdtReader<'a> {
    type V = Seq<u8>;

    /// The bytes that have not been consumed yet.
    closed spec fn view(&self) -> Seq<u8> {
        self.bytes@
    }
}

impl<'a> FdtReader<'a> {
    pub fn new(bytes: &'a [u8]) -> (r: Self)
        ensures
            r@ == bytes@,
    {
        FdtReader { bytes }
    }

    /// How many bytes are unread.
    pub fn len(&self) -> (r: usize)
        ensures
            r == self@.len(),
    {
        self.bytes.len()
    }

    /// The unread bytes.
    pub fn remaining(&self) -> (r: &'a [u8])
        ensures
            r@ == self@,
    {
        self.bytes
    }

    /// Reads one 32-bit big-endian word.
    pub fn take_u32(&mut self) -> (r: Option<u32>)
        ensures
            match read_cells(old(self)@, 1) {
                Some(v) => r matches Some(x) && x as nat == v && final(self)@ == old(self)@.skip(4),
                None => r is None && final(self)@ == old(self)@,
            },
    {
        let b: &'a [u8] = self.bytes;
        if b.len() < 4 {
            return None;
        }
        proof {
            lemma_be_value_cells(b@);
        }
        let v: u32 = (b[0] as u32) * 0x100_0000 + (b[1] as u32) * 0x1_0000 + (b[2] as u32) * 0x100
            + (b[3] as u32);
        self.bytes = slice_subrange(b, 4, b.len());
        Some(v)
    }

    /// Reads one 64-bit big-endian word.
    pub fn take_u64(&mut self) -> (r: Option<u64>)
        ensures
            match read_cells(old(self)@, 2) {
                Some(v) => r matches Some(x) && x as nat == v && final(self)@ == old(self)@.skip(8),
                None => r is None && final(self)@ == old(self)@,
            },
    {
        let b: &'a [u8] = self.bytes;
        if b.len() < 8 {
            return None;
        }
        proof {
            lemma_be_value_cells(b@);
            lemma_be_value_cells(b@.skip(4));
            assert(b@.skip(4).skip(4) =~= b@.skip(8));
        }
        let hi: Option<u32> = self.take_u32();
        let lo: Option<u32> = self.take_u32();
        match (hi, lo) {
            (Some(hi), Some(lo)) => Some((hi as u64) * 0x1_0000_0000 + (lo as u64)),
            _ => None,
        }
    }

    /// Reads a value that is one or two cells wide.
    pub fn take_by_cell_size(&mut self, cell_size: u8) -> (r: Option<u128>)
        requires
            1 <= cell_size <= 2,
        ensures
            match read_cells(old(self)@, cell_size as nat) {
                Some(v) => r matches Some(x) && x as nat == v && final(self)@ == old(self)@.skip(
                    4 * cell_size,
                ),
                None => r is None && final(self)@ == old(self)@,
            },
            r matches Some(x) ==> x <= u64::MAX,
    {
        if cell_size == 1 {
            match self.take_u32() {
                Some(v) => Some(v as u128),
                None => None,
            }
        } else {
            match self.take_u64() {
                Some(v) => Some(v as u128),
                None => None,
            }
        }
    }

    /// Hands out the next `n` bytes.
    pub fn take(&mut self, n: usize) -> (r: Option<&'a [u8]>)
        ensures
            match r {
                Some(s) => n <= old(self)@.len() && s@ == old(self)@.take(n as int) && final(self)@
                    == old(self)@.skip(n as int),
                None => n > old(self)@.len() && final(self)@ == old(self)@,
            },
    {
        let b: &'a [u8] = self.bytes;
        if n > b.len() {
            return None;
        }
        self.bytes = slice_subrange(b, n, b.len());
        Some(slice_subrange(b, 0, n))
    }

    /// Reads one structural token. A word that is no token is left unread.
    pub fn take_token(&mut self) -> (r: Option<Token>)
        ensures
            match spec_take_token(old(self)@) {
                Some(t) => r == Some(t) && final(self)@ == old(self)@.skip(4),
                None => r is None && final(self)@ == old(self)@,
            },
    {
        let mut ahead: FdtReader<'a> = *self;
        match ahead.take_u32() {
            Some(word) => {
                let token: Option<Token> = Token::from_u32(word);
                if token.is_some() {
                    *self = ahead;
                }
                token
            },
            None => None,
        }
    }

    /// Reads one zero-terminated string.
    pub fn take_str(&mut self) -> (r: FdtResult<&'a str>)
        ensures
            match spec_take_str(old(self)@).0 {
                Ok(chars) => r matches Ok(s) && s@ == chars,
                Err(e) => r == Err::<&str, FdtError>(e),
            },
            final(self)@ == spec_take_str(old(self)@).1,
    {
        let b: &'a [u8] = self.bytes;
        let n: usize = find_nul(b);
        if n >= b.len() {
            return Err(FdtError::Eof);
        }
        self.bytes = slice_subrange(b, n + 1, b.len());
        match decode_str(slice_subrange(b, 0, n)) {
            Some(s) => Ok(s),
            None => Err(FdtError::Utf8Parse),
        }
    }
}

} // verus!
