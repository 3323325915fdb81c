use vstd::prelude::*;
use vstd::string::StringSliceAdditionalSpecFns;

verus! {

broadcast use vstd::utf8::encode_utf8_valid_utf8;

/// The byte of a line feed.
pub const LF: u8 = 0x0a;

/// The byte of a carriage return.
pub const CR: u8 = 0x0d;

/// Index of the first line feed at or after `start`, or the length of `s`.
pub open spec fn next_newline(s: Seq<u8>, start: int) -> int
    decreases s.len() - start,
{
    if start < 0 || start >= s.len() {
        s.len() as int
    } else if s[start] == LF {
        start
    } else {
        next_newline(s, start + 1)
    }
}

/// The next line feed lies at or after `start`.
pub proof fn lemma_next_newline_bounds(s: Seq<u8>, start: int)
    requires
        0 <= start <= s.len(),
    ensures
        start <= next_newline(s, start) <= s.len(),
    decreases s.len() - start,
{
    if start < s.len() && s[start] != LF {
        lemma_next_newline_bounds(s, start + 1);
    }
}

/// End of the line that starts at `start`: its line feed, or the carriage return
/// just before it.
pub open spec fn line_end(s: Seq<u8>, start: int) -> int {
    let nl = next_newline(s, start);
    if nl < s.len() && nl > start && s[nl - 1] == CR {
        nl - 1
    } else {
        nl
    }
}

/// Whether `s` ends with `suffix`.
pub open spec fn ends_with(s: Seq<u8>, suffix: Seq<u8>) -> bool {
    suffix.len() <= s.len() && s.subrange(s.len() - suffix.len(), s.len() as int) == suffix
}

/// The first line from `start` on that ends with `wanted`, as its start and end.
/// Lines end at a line feed or at a carriage return and line feed; the last line
/// needs no line ending.
pub open spec fn find_line(s: Seq<u8>, start: int, wanted: Seq<u8>) -> Option<(int, int)>
    decreases s.len() - start,
{
    if start < 0 || start >= s.len() {
        None
    } else {
        let end = line_end(s, start);
        let nl = next_newline(s, start);
        if ends_with(s.subrange(start, end), wanted) {
            Some((start, end))
        } else if nl >= s.len() {
            None
        } else {
            proof {
                lemma_next_newline_bounds(s, start);
            }
            find_line(s, nl + 1, wanted)
        }
    }
}

/// The next line feed at or after `start`.
fn newline_from(bytes: &[u8], start: usize) -> (r: usize)
    requires
        start <= bytes@.len(),
    ensures
        r == next_newline(bytes@, start as int),
        start <= r <= bytes@.len(),
        r < bytes@.len() ==> bytes@[r as int] == LF,
{
    let mut i = start;
    while i < bytes.len()
        invariant
            start <= i <= bytes@.len(),
            next_newline(bytes@, start as int) == next_newline(bytes@, i as int),
        decreases bytes@.len() - i,
    {
        if bytes[i] == LF {
            return i;
        }
        i = i + 1;
    }
    i
}

/// Whether `bytes[start..end]` ends with `wanted`.
fn slice_ends_with(bytes: &[u8], start: usize, end: usize, wanted: &[u8]) -> (r: bool)
    requires
        start <= end <= bytes@.len(),
    ensures
        r == ends_with(bytes@.subrange(start as int, end as int), wanted@),
{
    if wanted.len() > end - start {
        return false;
    }
    let from = end - wanted.len();
    let ghost line = bytes@.subrange(start as int, end as int);
    let mut k: usize = 0;
    while k < wanted.len()
        invariant
            k <= wanted@.len(),
            from + wanted@.len() == end,
            start <= from,
            end <= bytes@.len(),
            line == bytes@.subrange(start as int, end as int),
            forall|j: int| 0 <= j < k ==> bytes@[from + j] == wanted@[j],
        decreases wanted@.len() - k,
    {
        if bytes[from + k] != wanted[k] {
            assert(line.subrange(line.len() - wanted@.len(), line.len() as int)[k as int]
                != wanted@[k as int]);
            return false;
        }
        k = k + 1;
    }
    assert(line.subrange(line.len() - wanted@.len(), line.len() as int) =~= wanted@);
    true
}

/// The text of `s[start..end]` where `start` begins a line and `end` is at a line
/// ending or at the end.
fn line_slice(s: &str, start: usize, end: usize) -> (r: &str)
    requires
        start <= end <= s.spec_bytes().len(),
        start == 0 || s.spec_bytes()[start - 1] == LF,
        end == s.spec_bytes().len() || s.spec_bytes()[end as int] == LF || s.spec_bytes()[end as int]
            == CR,
    ensures
        r.spec_bytes() == s.spec_bytes().subrange(start as int, end as int),
{
    let ghost b = s.spec_bytes();
    let tail = if start == 0 {
        s
    } else {
        proof {
            vstd::utf8::is_char_boundary_iff_not_is_continuation_byte(b, start - 1);
        }
        let (_, rest) = s.split_at(start - 1);
        proof {
            vstd::utf8::valid_utf8_split(b, start - 1);
            let t = rest.spec_bytes();
            assert(t =~= b.subrange(start - 1, b.len() as int));
            assert(t[0] == LF);
            reveal_with_fuel(vstd::utf8::is_char_boundary, 2);
            assert(vstd::utf8::is_char_boundary(t, 1));
        }
        let (_, t) = rest.split_at(1);
        t
    };
    let ghost tb = tail.spec_bytes();
    assert(tb =~= b.subrange(start as int, b.len() as int));
    proof {
        vstd::utf8::is_char_boundary_start_end_of_seq(tb);
        if end - start < tb.len() {
            vstd::utf8::is_char_boundary_iff_not_is_continuation_byte(tb, end - start);
        }
    }
    let (line, _) = tail.split_at(end - start);
    assert(line.spec_bytes() =~= b.subrange(start as int, end as int));
    line
}

/// The first line of an archive listing that ends with `wanted`.
pub fn find_archive_entry<'a>(listing: &'a str, wanted: &str) -> (r: Option<&'a str>)
    ensures
        match find_line(listing.spec_bytes(), 0, wanted.spec_bytes()) {
            Some((a, b)) => r matches Some(x) && x.spec_bytes() == listing.spec_bytes().subrange(a, b),
            None => r is None,
        },
{
    let bytes = listing.as_bytes();
    let w = wanted.as_bytes();
    let len = bytes.len();
    let mut start: usize = 0;
    while start < len
        invariant
            start <= len == bytes@.len(),
            bytes@ == listing.spec_bytes(),
            w@ == wanted.spec_bytes(),
            start == 0 || bytes@[start - 1] == LF,
            find_line(bytes@, start as int, w@) == find_line(bytes@, 0, w@),
        decreases len - start,
    {
        let nl = newline_from(bytes, start);
        let end = if nl < len && nl > start && bytes[nl - 1] == CR {
            nl - 1
        } else {
            nl
        };
        if slice_ends_with(bytes, start, end, w) {
            return Some(line_slice(listing, start, end));
        }
        if nl >= len {
            return None;
        }
        start = nl + 1;
    }
    None
}

} // verus!
