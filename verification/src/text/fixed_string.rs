use vstd::prelude::*;
use vstd::string::StringSliceAdditionalSpecFns;

use crate::xtask::image::names::prefix;
use crate::text::utf8::{all_ascii, lemma_ascii_is_utf8, str_from_utf8};

verus! {

/// The ASCII bytes of `s`, in their order.
pub open spec fn keep_ascii(s: Seq<u8>) -> Seq<u8>
    decreases s.len(),
{
    if s.len() == 0 {
        Seq::empty()
    } else if s.last() < 0x80 {
        keep_ascii(s.drop_last()).push(s.last())
    } else {
        keep_ascii(s.drop_last())
    }
}

/// ASCII text of at most `CAPACITY` bytes, a fixed-size buffer in the kernel.
/// Bytes that are not ASCII, and bytes beyond the capacity, are dropped.
pub struct FixedString<const CAPACITY: usize> {
    bytes: Vec<u8>,
}

impl<const CAPACITY: usize> View for FixedString<CAPACITY> {
    type V = Seq<u8>;

    closed spec fn view(&self) -> Seq<u8> {
        self.bytes@
    }
}

impl<const CAPACITY: usize> FixedString<CAPACITY> {
    /// At most `CAPACITY` bytes, all of them ASCII.
    pub closed spec fn wf(&self) -> bool {
        &&& self.bytes@.len() <= CAPACITY
        &&& all_ascii(self.bytes@)
    }

    /// Empty text.
    pub fn new() -> (s: Self)
        ensures
            s.wf(),
            s@ == Seq::<u8>::empty(),
    {
        Self { bytes: Vec::new() }
    }

    /// Appends the ASCII bytes of `value` while there is room.
    pub fn push_str(&mut self, value: &str)
        requires
            old(self).wf(),
        ensures
            final(self).wf(),
            final(self)@ == prefix(old(self)@ + keep_ascii(value.spec_bytes()), CAPACITY as int),
    {
        self.push_bytes(value.as_bytes());
    }

    /// Appends `byte` if it is ASCII and there is room; otherwise does nothing.
    pub fn push_ascii_byte(&mut self, byte: u8)
        requires
            old(self).wf(),
        ensures
            final(self).wf(),
            final(self)@ == if old(self)@.len() < CAPACITY && byte < 0x80 {
                old(self)@.push(byte)
            } else {
                old(self)@
            },
    {
        if self.bytes.len() < CAPACITY && byte < 0x80 {
            self.bytes.push(byte);
        }
    }

    /// The text as a string slice.
    pub fn as_str(&self) -> (r: &str)
        requires
            self.wf(),
        ensures
            r.spec_bytes() == self@,
    {
        proof {
            lemma_ascii_is_utf8(self.bytes@);
        }
        match str_from_utf8(self.bytes.as_slice()) {
            Some(s) => s,
            None => "",
        }
    }

    /// Appends the ASCII bytes of `bytes` while there is room.
    fn push_bytes(&mut self, bytes: &[u8])
        requires
            old(self).wf(),
        ensures
            final(self).wf(),
            final(self)@ == prefix(old(self)@ + keep_ascii(bytes@), CAPACITY as int),
    {
        let ghost start = self@;
        let mut i: usize = 0;
        assert(bytes@.take(0) =~= Seq::<u8>::empty());
        assert(start + keep_ascii(Seq::<u8>::empty()) =~= start);
        while i < bytes.len()
            invariant
                i <= bytes@.len(),
                self.wf(),
                start.len() <= CAPACITY,
                self@ == prefix(start + keep_ascii(bytes@.take(i as int)), CAPACITY as int),
            decreases bytes@.len() - i,
        {
            let ghost pre = keep_ascii(bytes@.take(i as int));
            assert(bytes@.take(i + 1).drop_last() =~= bytes@.take(i as int));
            let byte = bytes[i];
            if byte < 0x80 {
                self.push_ascii_byte(byte);
                proof {
                    let next = keep_ascii(bytes@.take(i + 1));
                    assert(next == pre.push(byte));
                    assert(start + next =~= (start + pre).push(byte));
                }
            }
            i = i + 1;
        }
        assert(bytes@.take(bytes@.len() as int) =~= bytes@);
    }
}

impl<const CAPACITY: usize> Default for FixedString<CAPACITY> {
    fn default() -> (s: Self)
        ensures
            s.wf(),
            s@ == Seq::<u8>::empty(),
    {
        Self::new()
    }
}

} // verus!
