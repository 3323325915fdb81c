use vstd::prelude::*;
use vstd::string::StringSliceAdditionalSpecFns;

use crate::xtask::image::names::prefix;
use crate::text::utf8::str_from_utf8;

verus! {

/// Bytes that a `String` holds at most.
pub const STRING_CAPACITY: usize = 64;

/// Text of at most 64 bytes, a fixed-size buffer in the kernel; what does not fit
/// is cut off, byte by byte.
pub struct String {
    buf: Vec<u8>,
}

impl View for String {
    type V = Seq<u8>;

    closed spec fn view(&self) -> Seq<u8> {
        self.buf@
    }
}

impl String {
    /// At most 64 bytes.
    pub closed spec fn wf(&self) -> bool {
        self.buf@.len() <= 64
    }

    /// Empty text.
    pub fn new() -> (s: Self)
        ensures
            s.wf(),
            s@ == Seq::<u8>::empty(),
    {
        Self { buf: Vec::new() }
    }

    /// The first 64 bytes of `s`.
    pub fn from_str(s: &str) -> (r: Self)
        ensures
            r.wf(),
            r@ == prefix(s.spec_bytes(), 64),
    {
        let mut string = Self::new();
        string.push_str(s);
        assert(Seq::<u8>::empty() + s.spec_bytes() =~= s.spec_bytes());
        string
    }

    /// Appends the bytes of `s` that still fit.
    pub fn push_str(&mut self, s: &str)
        requires
            old(self).wf(),
        ensures
            final(self).wf(),
            final(self)@ == prefix(old(self)@ + s.spec_bytes(), 64),
    {
        self.push_bytes(s.as_bytes());
    }

    /// The text of `self` followed by that of `other`, cut at 64 bytes.
    pub fn concat(&self, other: &Self) -> (r: Self)
        requires
            self.wf(),
            other.wf(),
        ensures
            r.wf(),
            r@ == prefix(self@ + other@, 64),
    {
        let mut new_str = Self::new();
        new_str.push_bytes(self.buf.as_slice());
        new_str.push_bytes(other.buf.as_slice());
        assert(Seq::<u8>::empty() + self@ =~= self@);
        assert(prefix(self@, 64) == self@);
        new_str
    }

    /// The bytes of the text.
    pub fn as_bytes(&self) -> (r: &[u8])
        ensures
            r@ == self@,
    {
        self.buf.as_slice()
    }

    /// The text as a string slice, where its bytes are valid UTF-8 (a cut may have
    /// split a character).
    pub fn as_str(&self) -> (r: Option<&str>)
        ensures
            r is Some <==> vstd::utf8::valid_utf8(self@),
            r matches Some(s) ==> s.spec_bytes() == self@,
    {
        str_from_utf8(self.buf.as_slice())
    }

    /// Appends the bytes that still fit.
    fn push_bytes(&mut self, bytes: &[u8])
        requires
            old(self).wf(),
        ensures
            final(self).wf(),
            final(self)@ == prefix(old(self)@ + bytes@, 64),
    {
        let space = STRING_CAPACITY - self.buf.len();
        let to_copy = if bytes.len() > space {
            space
        } else {
            bytes.len()
        };
        let ghost start = self.buf@;
        let mut i: usize = 0;
        while i < to_copy
            invariant
                i <= to_copy <= bytes@.len(),
                to_copy <= space,
                space == 64 - start.len(),
                self.buf@ == start + bytes@.take(i as int),
            decreases to_copy - i,
        {
            self.buf.push(bytes[i]);
            i = i + 1;
            assert(self.buf@ =~= start + bytes@.take(i as int));
        }
        assert(self.buf@ =~= prefix(start + bytes@, 64));
    }
}

} // verus!
