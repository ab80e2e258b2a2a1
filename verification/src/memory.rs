//! Model of the wasm linear memory as the generated string-transfer
//! helpers use it: an allocation places fresh bytes at the end of memory
//! (standing for the module's allocator export), and reads decode a byte
//! range back. Host strings cross the boundary as their UTF-8 bytes.

use vstd::prelude::*;

verus! {

/// Wasm linear memory.
pub struct Memory {
    pub bytes: Vec<u8>,
}

/// The little-endian bytes of a 32-bit length.
pub open spec fn u32_le_bytes(v: u32) -> Seq<u8> {
    seq![
        (v % 256) as u8,
        ((v / 256) % 256) as u8,
        ((v / 65536) % 256) as u8,
        ((v / 16777216) % 256) as u8,
    ]
}

/// `s` with `patch` written over the range starting at `at`.
pub open spec fn splice(s: Seq<u8>, at: int, patch: Seq<u8>) -> Seq<u8> {
    s.subrange(0, at) + patch + s.subrange(at + patch.len(), s.len() as int)
}

impl Memory {
    /// Fresh empty memory.
    pub fn new() -> (r: Memory)
        ensures
            r.bytes@ == Seq::<u8>::empty(),
    {
        Memory { bytes: Vec::new() }
    }

    /// Model of `passStringToWasm`: allocate room for the string's bytes
    /// in linear memory, copy them in, and return the pointer and length.
    /// Both emitted variants of the helper (buffer API and streaming text
    /// encoder) implement exactly this effect.
    pub fn pass_string(&mut self, s: &[u8]) -> (r: (usize, usize))
        requires
            old(self).bytes@.len() + s@.len() <= usize::MAX,
        ensures
            r.0 == old(self).bytes@.len(),
            r.1 == s@.len(),
            final(self).bytes@ == old(self).bytes@ + s@,
    {
        let ptr = self.bytes.len();
        let len = s.len();
        let mut i: usize = 0;
        while i < len
            invariant
                i <= s@.len(),
                len == s@.len(),
                self.bytes@ == old(self).bytes@ + s@.subrange(0, i as int),
            decreases len - i,
        {
            self.bytes.push(s[i]);
            proof {
                assert(self.bytes@ =~= old(self).bytes@ + s@.subrange(0, i + 1));
            }
            i += 1;
        }
        proof {
            assert(self.bytes@ =~= old(self).bytes@ + s@);
        }
        (ptr, len)
    }

    /// Model of `getStringFromWasm`: read `len` bytes starting at `ptr`.
    pub fn get_string(&self, ptr: usize, len: usize) -> (r: Vec<u8>)
        requires
            ptr + len <= self.bytes@.len(),
        ensures
            r@ == self.bytes@.subrange(ptr as int, ptr as int + len as int),
    {
        let total = self.bytes.len();
        let mut r: Vec<u8> = Vec::new();
        let mut i: usize = 0;
        while i < len
            invariant
                i <= len,
                ptr + len <= total,
                total == self.bytes@.len(),
                r@ == self.bytes@.subrange(ptr as int, ptr as int + i as int),
            decreases len - i,
        {
            r.push(self.bytes[ptr + i]);
            proof {
                assert(r@ =~= self.bytes@.subrange(ptr as int, ptr as int + i + 1));
            }
            i += 1;
        }
        r
    }

    /// Overwrite the byte at `at`.
    pub fn set_byte(&mut self, at: usize, b: u8)
        requires
            at < old(self).bytes@.len(),
        ensures
            final(self).bytes@ == old(self).bytes@.update(at as int, b),
    {
        let _old = self.bytes.remove(at);
        self.bytes.insert(at, b);
        proof {
            assert(self.bytes@ =~= old(self).bytes@.update(at as int, b));
        }
    }

    /// Write a 32-bit length, little endian, over four bytes at `at`:
    /// the model of storing through a 32-bit view of the memory buffer.
    pub fn write_u32_le(&mut self, at: usize, v: u32)
        requires
            at + 4 <= old(self).bytes@.len(),
        ensures
            final(self).bytes@ == splice(old(self).bytes@, at as int, u32_le_bytes(v)),
    {
        let total = self.bytes.len();
        proof {
            assert(at + 4 <= total);
        }
        self.set_byte(at, (v % 256) as u8);
        self.set_byte(at + 1, ((v / 256) % 256) as u8);
        self.set_byte(at + 2, ((v / 65536) % 256) as u8);
        self.set_byte(at + 3, ((v / 16777216) % 256) as u8);
        proof {
            assert(self.bytes@ =~= splice(old(self).bytes@, at as int, u32_le_bytes(v)));
        }
    }
}

/// String transfer round trip: reading back the region just written by
/// `pass_string` yields the very bytes that went in.
pub proof fn lemma_string_round_trip(pre: Memory, s: Seq<u8>, post: Memory, ptr: usize, len: usize)
    requires
        post.bytes@ == pre.bytes@ + s,
        ptr as int == pre.bytes@.len(),
        len as int == s.len(),
    ensures
        post.bytes@.subrange(ptr as int, ptr as int + len as int) == s,
{
    assert(post.bytes@.subrange(ptr as int, ptr as int + len as int) =~= s);
}

} // verus!
