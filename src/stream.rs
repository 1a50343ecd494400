//! A forward-only cursor over the bytes of a file.
use vstd::prelude::*;

verus! {

/// Bytes not yet consumed are `bytes[pos..]`; the cursor only moves forward.
pub struct ByteStream {
    bytes: Vec<u8>,
    pos: usize,
}

impl View for ByteStream {
    type V = Seq<u8>;

    /// The bytes that are still to be read.
    closed spec fn view(&self) -> Seq<u8> {
        self.bytes@.subrange(self.pos as int, self.bytes@.len() as int)
    }
}

/// Reads a big-endian unsigned 32-bit integer from the first four bytes of `s`.
pub open spec fn be_u32(s: Seq<u8>) -> u32
    recommends
        s.len() >= 4,
{
    (s[0] as int * 0x1000000 + s[1] as int * 0x10000 + s[2] as int * 0x100 + s[3] as int) as u32
}

impl ByteStream {
    #[verifier::type_invariant]
    spec fn inv(&self) -> bool {
        self.pos <= self.bytes@.len()
    }

    /// A cursor positioned at the first of `bytes`.
    pub fn new(bytes: Vec<u8>) -> (s: ByteStream)
        ensures
            s@ == bytes@,
    {
        proof {
            assert(bytes@.subrange(0, bytes@.len() as int) =~= bytes@);
        }
        ByteStream { bytes, pos: 0 }
    }

    /// Number of bytes still to be read.
    pub fn remaining(&self) -> (n: usize)
        ensures
            n == self@.len(),
    {
        proof {
            use_type_invariant(self);
        }
        self.bytes.len() - self.pos
    }

    /// Reads exactly `n` bytes, or fails. A stream that ends early is used up:
    /// a failed read never hands back fewer bytes than asked for.
    pub fn read_exact(&mut self, n: usize) -> (r: Option<Vec<u8>>)
        ensures
            match r {
                Some(v) => {
                    &&& n <= old(self)@.len()
                    &&& v@ == old(self)@.subrange(0, n as int)
                    &&& final(self)@ == old(self)@.skip(n as int)
                },
                None => {
                    &&& old(self)@.len() < n
                    &&& final(self)@.len() == 0
                },
            },
    {
        proof {
            use_type_invariant(&*self);
        }
        let len = self.bytes.len();
        if len - self.pos < n {
            self.pos = len;
            proof {
                assert(self@.len() == 0);
            }
            return None;
        }
        let start = self.pos;
        let mut out: Vec<u8> = Vec::with_capacity(n);
        let mut k: usize = 0;
        while k < n
            invariant
                start + n <= len,
                len == self.bytes@.len(),
                self.pos == start,
                out@.len() == k,
                k <= n,
                forall|j: int| 0 <= j < k ==> #[trigger] out@[j] == self.bytes@[start + j],
            decreases n - k,
        {
            out.push(self.bytes[start + k]);
            k = k + 1;
        }
        self.pos = start + n;
        proof {
            assert(out@ =~= old(self)@.subrange(0, n as int));
            assert(self@ =~= old(self)@.skip(n as int));
        }
        Some(out)
    }

    /// Reads a big-endian unsigned 32-bit integer, or fails as `read_exact` does.
    pub fn read_u32_be(&mut self) -> (r: Option<u32>)
        ensures
            match r {
                Some(x) => {
                    &&& 4 <= old(self)@.len()
                    &&& x == be_u32(old(self)@)
                    &&& final(self)@ == old(self)@.skip(4)
                },
                None => {
                    &&& old(self)@.len() < 4
                    &&& final(self)@.len() == 0
                },
            },
    {
        match self.read_exact(4) {
            Some(b) => {
                let x: u32 = (b[0] as u32) * 0x1000000 + (b[1] as u32) * 0x10000 + (b[2] as u32)
                    * 0x100 + (b[3] as u32);
                Some(x)
            },
            None => None,
        }
    }
}

} // verus!
