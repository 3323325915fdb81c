use vstd::prelude::*;
use vstd::string::StrSliceExecFns;

use crate::xtask::image::dir_entry::DirEntry;
use crate::xtask::image::le::le16;
use crate::xtask::image::names::checksum_of;
use crate::xtask::image::names::short_name_checksum;

verus! {

/// Number of UTF-16 units that one long-name entry holds.
pub const LFN_CHARS_PER_ENTRY: usize = 13;

/// The UTF-16 code units of one character.
pub open spec fn utf16_units(c: char) -> Seq<u16> {
    let v = c as u32;
    if v < 0x10000 {
        seq![v as u16]
    } else {
        seq![(0xd800 + (v - 0x10000) / 0x400) as u16, (0xdc00 + (v - 0x10000) % 0x400) as u16]
    }
}

/// The UTF-16 encoding of a character sequence.
pub open spec fn encode_utf16(cs: Seq<char>) -> Seq<u16>
    decreases cs.len(),
{
    if cs.len() == 0 {
        Seq::empty()
    } else {
        encode_utf16(cs.drop_last()) + utf16_units(cs.last())
    }
}

/// The units that the long-name entries of a name hold: its UTF-16 encoding, a
/// terminating zero, then `0xffff` up to a multiple of thirteen units.
pub open spec fn lfn_units(cs: Seq<char>) -> Seq<u16> {
    let u = encode_utf16(cs).push(0u16);
    let total = (u.len() + 12) / 13 * 13;
    Seq::new(total as nat, |i: int| if i < u.len() { u[i] } else { 0xffffu16 })
}

/// Number of long-name entries of a name.
pub open spec fn lfn_count(cs: Seq<char>) -> int {
    (lfn_units(cs).len() / 13) as int
}

/// The character index that byte `p` of a long-name entry carries, or -1 where
/// it carries none.
pub open spec fn lfn_slot_char(p: int) -> int {
    if 1 <= p <= 10 {
        (p - 1) / 2
    } else if 14 <= p <= 25 {
        5 + (p - 14) / 2
    } else if 28 <= p <= 31 {
        11 + (p - 28) / 2
    } else {
        -1
    }
}

/// Which byte of its character (0 low, 1 high) byte `p` of a long-name entry carries.
pub open spec fn lfn_slot_half(p: int) -> int {
    if 1 <= p <= 10 {
        (p - 1) % 2
    } else if 14 <= p <= 25 {
        (p - 14) % 2
    } else {
        (p - 28) % 2
    }
}

/// The offset in a long-name entry of the first byte of character `k`.
pub open spec fn lfn_slot(k: int) -> int {
    if k < 5 {
        1 + 2 * k
    } else if k < 11 {
        14 + 2 * (k - 5)
    } else {
        28 + 2 * (k - 11)
    }
}

/// An entry of 32 bytes after the characters of `chars` (at most thirteen of them)
/// were written into their slots, every other byte as it was.
pub open spec fn lfn_chars_written(old_entry: Seq<u8>, chars: Seq<u16>) -> Seq<u8> {
    Seq::new(
        32,
        |p: int|
            {
                let k = lfn_slot_char(p);
                if 0 <= k < chars.len() {
                    le16(chars[k])[lfn_slot_half(p)]
                } else {
                    old_entry[p]
                }
            },
    )
}

/// The ordinal byte of long-name entry `index` (0-based) out of `count`: its
/// number from one, with bit 0x40 on the last one.
pub open spec fn lfn_ordinal(index: int, count: int) -> u8 {
    let n = ((index + 1) % 256) as u8;
    if index == count - 1 {
        n | 0x40u8
    } else {
        n
    }
}

/// The bytes of long-name entry `index` of the name `cs`, for the short name whose
/// checksum is `checksum`.
pub open spec fn lfn_entry_spec(cs: Seq<char>, index: int, checksum: u8) -> Seq<u8> {
    let base = Seq::new(
        32,
        |p: int|
            if p == 0 {
                lfn_ordinal(index, lfn_count(cs))
            } else if p == 11 {
                0x0fu8
            } else if p == 13 {
                checksum
            } else {
                0xffu8
            },
    );
    lfn_chars_written(base, lfn_units(cs).subrange(13 * index, 13 * index + 13))
}

/// The long-name entries of `cs`, in the order they stand in a directory: the
/// last piece of the name first.
pub open spec fn long_name_entries_spec(cs: Seq<char>, short: Seq<u8>) -> Seq<Seq<u8>> {
    Seq::new(
        lfn_count(cs) as nat,
        |j: int| lfn_entry_spec(cs, lfn_count(cs) - 1 - j, checksum_of(short)),
    )
}

/// The offset in a long-name entry of the first byte of character `k`.
fn lfn_slot_offset(k: usize) -> (r: usize)
    requires
        k < 13,
    ensures
        r == lfn_slot(k as int),
{
    if k < 5 {
        1 + 2 * k
    } else if k < 11 {
        14 + 2 * (k - 5)
    } else {
        28 + 2 * (k - 11)
    }
}

/// Writes up to thirteen UTF-16 units into the character slots of a long-name
/// entry, low byte first.
pub fn write_lfn_chars(entry: &mut [u8; 32], chars: &[u16])
    ensures
        final(entry)@ == lfn_chars_written(old(entry)@, chars@),
{
    let n = if chars.len() < 13 {
        chars.len()
    } else {
        13
    };
    let mut k: usize = 0;
    while k < n
        invariant
            k <= n <= 13,
            n <= chars@.len(),
            n == chars@.len() || n == 13,
            entry@.len() == 32,
            forall|p: int|
                0 <= p < 32 ==> #[trigger] entry@[p] == (if 0 <= lfn_slot_char(p) < k {
                    le16(chars@[lfn_slot_char(p)])[lfn_slot_half(p)]
                } else {
                    old(entry)@[p]
                }),
        decreases n - k,
    {
        let slot = lfn_slot_offset(k);
        let bytes = crate::xtask::image::le::u16_to_le_bytes(chars[k]);
        entry[slot] = bytes[0];
        entry[slot + 1] = bytes[1];
        k = k + 1;
    }
    assert(entry@ =~= lfn_chars_written(old(entry)@, chars@));
}

/// The UTF-16 encoding of a string.
pub fn encode_utf16_units(name: &str) -> (r: Vec<u16>)
    ensures
        r@ == encode_utf16(name@),
{
    let n = name.unicode_len();
    let mut out: Vec<u16> = Vec::new();
    let mut i: usize = 0;
    while i < n
        invariant
            i <= n,
            n == name@.len(),
            out@ == encode_utf16(name@.take(i as int)),
        decreases n - i,
    {
        assert(name@.take(i as int + 1).drop_last() =~= name@.take(i as int));
        let c = name.get_char(i);
        let v = c as u32;
        if v < 0x10000 {
            out.push(v as u16);
        } else {
            let w = v - 0x10000;
            assert(w >> 10u32 == w / 0x400 && w & 0x3ff == w % 0x400) by (bit_vector);
            assert(w <= 0xfffff);
            out.push((0xd800 + (w >> 10u32)) as u16);
            out.push((0xdc00 + (w & 0x3ff)) as u16);
        }
        proof {
            assert(out@ =~= encode_utf16(name@.take(i as int)) + utf16_units(c));
        }
        i = i + 1;
    }
    assert(name@.take(n as int) =~= name@);
    out
}

/// The long-name entries that carry `name` for the short name `short_name`.
pub fn long_name_entries(name: &str, short_name: &[u8; 11]) -> (r: Vec<DirEntry>)
    ensures
        r@.map_values(|e: DirEntry| e.0@) == long_name_entries_spec(name@, short_name@),
{
    let mut utf16 = encode_utf16_units(name);
    utf16.push(0);
    let ghost u = utf16@;
    let ghost total: int = ((u.len() + 12) / 13 * 13) as int;
    assert(total % 13 == 0 && u.len() <= total < u.len() + 13) by (nonlinear_arith)
        requires
            total == (u.len() + 12) / 13 * 13,
    ;
    while utf16.len() % 13 != 0
        invariant
            u == encode_utf16(name@).push(0u16),
            total % 13 == 0,
            u.len() <= total < u.len() + 13,
            u.len() <= utf16@.len() <= total,
            forall|i: int| 0 <= i < u.len() ==> utf16@[i] == u[i],
            forall|i: int| u.len() <= i < utf16@.len() ==> utf16@[i] == 0xffffu16,
        decreases total - utf16@.len(),
    {
        utf16.push(0xffff);
    }
    proof {
        assert(utf16@.len() == total) by (nonlinear_arith)
            requires
                u.len() <= utf16@.len() <= total < u.len() + 13,
                utf16@.len() % 13 == 0,
                total % 13 == 0,
        ;
        assert(utf16@ =~= lfn_units(name@));
    }
    let checksum = short_name_checksum(short_name);
    let units_len = utf16.len();
    let count = units_len / 13;
    let mut entries: Vec<DirEntry> = Vec::new();
    let mut index = count;
    while index > 0
        invariant
            index <= count,
            count == lfn_count(name@),
            utf16@ == lfn_units(name@),
            utf16@.len() == count * 13,
            units_len == utf16@.len(),
            checksum == checksum_of(short_name@),
            entries@.len() == count - index,
            forall|j: int|
                0 <= j < entries@.len() ==> #[trigger] entries@[j].0@ == lfn_entry_spec(
                    name@,
                    count - 1 - j,
                    checksum,
                ),
        decreases index,
    {
        index = index - 1;
        let number = ((index + 1) % 256) as u8;
        let ordinal = if index == count - 1 {
            number | 0x40
        } else {
            number
        };
        let mut entry = [0xffu8; 32];
        entry[0] = ordinal;
        entry[11] = 0x0f;
        entry[13] = checksum;
        let ghost before = entry@;
        assert(13 * index + 13 <= 13 * count) by (nonlinear_arith)
            requires
                index < count,
        ;
        assert(13 * count == units_len);
        let chunk = &utf16.as_slice()[13 * index..13 * index + 13];
        write_lfn_chars(&mut entry, chunk);
        proof {
            let base = Seq::new(
                32,
                |p: int|
                    if p == 0 {
                        lfn_ordinal(index as int, lfn_count(name@))
                    } else if p == 11 {
                        0x0fu8
                    } else if p == 13 {
                        checksum
                    } else {
                        0xffu8
                    },
            );
            assert(before =~= base);
        }
        entries.push(DirEntry(entry));
    }
    assert(entries@.map_values(|e: DirEntry| e.0@) =~= long_name_entries_spec(name@, short_name@));
    entries
}

} // verus!
