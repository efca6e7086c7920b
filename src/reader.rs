//! A positioned byte source that decodes unsigned integers in a
//! byte order chosen at run time.
use vstd::prelude::*;

use crate::error::{Error, ErrorKind};

verus! {

/// Value of bytes read least-significant first.
pub open spec fn le_value(b: Seq<u8>) -> nat
    decreases b.len(),
{
    if b.len() == 0 {
        0
    } else {
        b[0] as nat + 256 * le_value(b.drop_first())
    }
}

/// Value of bytes read most-significant first.
pub open spec fn be_value(b: Seq<u8>) -> nat
    decreases b.len(),
{
    if b.len() == 0 {
        0
    } else {
        be_value(b.drop_last()) * 256 + b.last() as nat
    }
}

pub open spec fn uint_value(b: Seq<u8>, little_endian: bool) -> nat {
    if little_endian {
        le_value(b)
    } else {
        be_value(b)
    }
}

/// The unsigned integer stored in `width` bytes of `s` starting at `at`.
pub open spec fn field(s: Seq<u8>, at: int, width: int, little_endian: bool) -> nat {
    uint_value(s.subrange(at, at + width), little_endian)
}

pub open spec fn pow256(n: nat) -> nat
    decreases n,
{
    if n == 0 {
        1
    } else {
        256 * pow256((n - 1) as nat)
    }
}

proof fn lemma_pow256_bound(n: nat)
    requires
        n <= 8,
    ensures
        pow256(n) <= 0x1_0000_0000_0000_0000,
    decreases 8 - n,
{
    if n == 8 {
        reveal_with_fuel(pow256, 9);
    } else {
        lemma_pow256_bound(n + 1);
    }
}

/// A byte source with a cursor and a selected byte order.
pub struct ElfFile<'a> {
    is_little_endian: bool,
    data: &'a [u8],
    pos: u64,
}

impl<'a> ElfFile<'a> {
    /// The whole byte source.
    pub closed spec fn bytes(&self) -> Seq<u8> {
        self.data@
    }

    /// The cursor, as an absolute byte offset.
    pub closed spec fn position(&self) -> nat {
        self.pos as nat
    }

    pub closed spec fn little_endian(&self) -> bool {
        self.is_little_endian
    }

    /// Whether `n` bytes are left at the cursor.
    pub open spec fn has(&self, n: int) -> bool {
        self.position() + n <= self.bytes().len()
    }

    /// Starts at offset 0, reading little-endian.
    pub fn new(data: &'a [u8]) -> (r: Self)
        ensures
            r.bytes() == data@,
            r.position() == 0,
            r.little_endian(),
    {
        ElfFile { is_little_endian: true, data, pos: 0 }
    }

    pub fn set_little_endian(&mut self, little_endian: bool)
        ensures
            final(self).bytes() == old(self).bytes(),
            final(self).position() == old(self).position(),
            final(self).little_endian() == little_endian,
    {
        self.is_little_endian = little_endian;
    }

    pub fn is_little_endian(&self) -> (r: bool)
        ensures
            r == self.little_endian(),
    {
        self.is_little_endian
    }

    /// Moves the cursor to an absolute offset, which may lie past the end.
    pub fn seek(&mut self, pos: u64)
        ensures
            final(self).bytes() == old(self).bytes(),
            final(self).little_endian() == old(self).little_endian(),
            final(self).position() == pos,
    {
        self.pos = pos;
    }

    /// Moves the cursor forward by `n` bytes.
    pub fn skip(&mut self, n: u64)
        requires
            old(self).position() + n <= u64::MAX,
        ensures
            final(self).bytes() == old(self).bytes(),
            final(self).little_endian() == old(self).little_endian(),
            final(self).position() == old(self).position() + n,
    {
        self.pos = self.pos + n;
    }

    pub fn stream_position(&self) -> (r: u64)
        ensures
            r == self.position(),
    {
        self.pos
    }

    fn available(&self, n: u64) -> (r: bool)
        ensures
            r == self.has(n as int),
    {
        let len = self.data.len() as u64;
        self.pos <= len && n <= len - self.pos
    }

    /// Reads `width` bytes at the cursor as one unsigned integer.
    fn read_uint(&mut self, width: u64) -> (r: Result<u64, Error>)
        requires
            1 <= width <= 8,
        ensures
            final(self).bytes() == old(self).bytes(),
            final(self).little_endian() == old(self).little_endian(),
            old(self).has(width as int) ==> {
                &&& r == Ok::<u64, Error>(
                    field(old(self).bytes(), old(self).position() as int, width as int, old(self).little_endian()) as u64,
                )
                &&& field(old(self).bytes(), old(self).position() as int, width as int, old(self).little_endian()) < pow256(width as nat)
                &&& final(self).position() == old(self).position() + width
            },
            !old(self).has(width as int) ==> r == Err::<u64, Error>(Error { kind: ErrorKind::Truncated }),
    {
        if !self.available(width) {
            return Err(Error { kind: ErrorKind::Truncated });
        }
        let data: &[u8] = self.data;
        let len = data.len();
        let start = self.pos as usize;
        let w = width as usize;
        let ghost s = data@;
        let mut value: u64 = 0;
        if self.is_little_endian {
            let mut i: usize = w;
            while i > 0
                invariant
                    s == data@,
                    len == s.len(),
                    start + w <= s.len(),
                    w <= 8,
                    i <= w,
                    value == le_value(s.subrange(start + i, start + w)),
                    value < pow256((w - i) as nat),
                decreases i,
            {
                i = i - 1;
                let byte = data[start + i];
                proof {
                    lemma_pow256_bound((w - i) as nat);
                    let p = pow256((w - i - 1) as nat);
                    assert(pow256((w - i) as nat) == 256 * p);
                    assert((byte as int) + 256 * value < 256 * p) by (nonlinear_arith)
                        requires
                            value < p,
                            byte < 256,
                    ;
                    let t = s.subrange(start + i, start + w);
                    assert(t.drop_first() =~= s.subrange(start + i + 1, start + w));
                }
                value = byte as u64 + 256 * value;
            }
        } else {
            let mut i: usize = 0;
            while i < w
                invariant
                    s == data@,
                    len == s.len(),
                    start + w <= s.len(),
                    w <= 8,
                    i <= w,
                    value == be_value(s.subrange(start as int, start + i)),
                    value < pow256(i as nat),
                decreases w - i,
            {
                let byte = data[start + i];
                proof {
                    lemma_pow256_bound((i + 1) as nat);
                    let p = pow256(i as nat);
                    assert(pow256((i + 1) as nat) == 256 * p);
                    assert(value * 256 + (byte as int) < 256 * p) by (nonlinear_arith)
                        requires
                            value < p,
                            byte < 256,
                    ;
                    let t = s.subrange(start as int, start + i + 1);
                    assert(t.drop_last() =~= s.subrange(start as int, start + i));
                }
                value = value * 256 + byte as u64;
                i = i + 1;
            }
            assert(s.subrange(start as int, start + i) =~= s.subrange(start as int, start + w));
        }
        self.pos = self.pos + width;
        Ok(value)
    }

    pub fn read_u8(&mut self) -> (r: Result<u8, Error>)
        ensures
            final(self).bytes() == old(self).bytes(),
            final(self).little_endian() == old(self).little_endian(),
            old(self).has(1) ==> {
                &&& r == Ok::<u8, Error>(old(self).bytes()[old(self).position() as int])
                &&& final(self).position() == old(self).position() + 1
            },
            !old(self).has(1) ==> r == Err::<u8, Error>(Error { kind: ErrorKind::Truncated }),
    {
        let ghost s = self.data@;
        let ghost p = self.pos as int;
        let value = self.read_uint(1)?;
        proof {
            let b = s.subrange(p, p + 1);
            assert(b.drop_first().len() == 0);
            assert(b.drop_last().len() == 0);
            reveal_with_fuel(le_value, 2);
            reveal_with_fuel(be_value, 2);
        }
        Ok(value as u8)
    }

    pub fn read_u16(&mut self) -> (r: Result<u16, Error>)
        ensures
            final(self).bytes() == old(self).bytes(),
            final(self).little_endian() == old(self).little_endian(),
            old(self).has(2) ==> {
                &&& field(old(self).bytes(), old(self).position() as int, 2, old(self).little_endian()) <= u16::MAX
                &&& r == Ok::<u16, Error>(
                    field(old(self).bytes(), old(self).position() as int, 2, old(self).little_endian()) as u16,
                )
                &&& final(self).position() == old(self).position() + 2
            },
            !old(self).has(2) ==> r == Err::<u16, Error>(Error { kind: ErrorKind::Truncated }),
    {
        let value = self.read_uint(2)?;
        proof {
            reveal_with_fuel(pow256, 3);
        }
        Ok(value as u16)
    }

    pub fn read_u32(&mut self) -> (r: Result<u32, Error>)
        ensures
            final(self).bytes() == old(self).bytes(),
            final(self).little_endian() == old(self).little_endian(),
            old(self).has(4) ==> {
                &&& field(old(self).bytes(), old(self).position() as int, 4, old(self).little_endian()) <= u32::MAX
                &&& r == Ok::<u32, Error>(
                    field(old(self).bytes(), old(self).position() as int, 4, old(self).little_endian()) as u32,
                )
                &&& final(self).position() == old(self).position() + 4
            },
            !old(self).has(4) ==> r == Err::<u32, Error>(Error { kind: ErrorKind::Truncated }),
    {
        let value = self.read_uint(4)?;
        proof {
            reveal_with_fuel(pow256, 5);
        }
        Ok(value as u32)
    }

    pub fn read_u64(&mut self) -> (r: Result<u64, Error>)
        ensures
            final(self).bytes() == old(self).bytes(),
            final(self).little_endian() == old(self).little_endian(),
            old(self).has(8) ==> {
                &&& field(old(self).bytes(), old(self).position() as int, 8, old(self).little_endian()) <= u64::MAX
                &&& r == Ok::<u64, Error>(
                    field(old(self).bytes(), old(self).position() as int, 8, old(self).little_endian()) as u64,
                )
                &&& final(self).position() == old(self).position() + 8
            },
            !old(self).has(8) ==> r == Err::<u64, Error>(Error { kind: ErrorKind::Truncated }),
    {
        let value = self.read_uint(8)?;
        proof {
            reveal_with_fuel(pow256, 9);
        }
        Ok(value as u64)
    }

    /// Reads the next `n` bytes into a new buffer.
    pub fn read_exact(&mut self, n: u64) -> (r: Result<Vec<u8>, Error>)
        ensures
            final(self).bytes() == old(self).bytes(),
            final(self).little_endian() == old(self).little_endian(),
            old(self).has(n as int) ==> {
                &&& r is Ok
                &&& r->Ok_0@ == old(self).bytes().subrange(
                    old(self).position() as int,
                    old(self).position() + n,
                )
                &&& final(self).position() == old(self).position() + n
            },
            !old(self).has(n as int) ==> r == Err::<Vec<u8>, Error>(Error { kind: ErrorKind::Truncated }),
    {
        if !self.available(n) {
            return Err(Error { kind: ErrorKind::Truncated });
        }
        let data: &[u8] = self.data;
        let len = data.len();
        assert(self.pos + n <= len);
        let start = self.pos as usize;
        let end = start + n as usize;
        let mut out: Vec<u8> = Vec::new();
        let mut i: usize = start;
        while i < end
            invariant
                start <= i <= end,
                end <= data@.len(),
                out@ == data@.subrange(start as int, i as int),
            decreases end - i,
        {
            out.push(data[i]);
            proof {
                assert(out@ =~= data@.subrange(start as int, i + 1));
            }
            i = i + 1;
        }
        self.pos = self.pos + n;
        Ok(out)
    }
}

} // verus!
