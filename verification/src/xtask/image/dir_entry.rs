use vstd::prelude::*;
use vstd::string::StringSliceAdditionalSpecFns;
use vstd::utf8::encode_utf8;

use crate::xtask::image::error::ImageError;
use crate::xtask::image::le::{le16, le32, u16_to_le_bytes, u32_to_le_bytes};
use crate::xtask::image::long_name::{long_name_entries, long_name_entries_spec};
use crate::xtask::image::names::{
    fits_short_name, pad_to, prefix, short_name, short_name_spec, to_ascii_uppercase, upper_all,
    SPACE,
};

verus! {

/// Size in bytes of one directory entry.
pub const DIR_ENTRY_SIZE: usize = 32;

/// Attribute byte of a directory.
pub const ATTR_DIRECTORY: u8 = 0x10;

/// Attribute byte of an ordinary file (archive bit).
pub const ATTR_ARCHIVE: u8 = 0x20;

/// One 32-byte entry of a FAT directory.
#[derive(Clone, Copy)]
pub struct DirEntry(pub [u8; 32]);

/// The bytes of a sequence of directory entries, entry by entry.
pub open spec fn entries_bytes(entries: Seq<DirEntry>) -> Seq<Seq<u8>> {
    entries.map_values(|e: DirEntry| e.0@)
}

/// The bytes of a short directory entry: the eleven name bytes, the attributes,
/// the first cluster at offset 26 and the size at offset 28, both little-endian,
/// and zero everywhere else.
pub open spec fn short_entry_spec(name: Seq<u8>, attributes: u8, cluster: u16, size: u32) -> Seq<
    u8,
> {
    Seq::new(
        32,
        |p: int|
            if p < 11 {
                name[p]
            } else if p == 11 {
                attributes
            } else if 26 <= p < 28 {
                le16(cluster)[p - 26]
            } else if 28 <= p < 32 {
                le32(size)[p - 28]
            } else {
                0u8
            },
    )
}

/// The eleven name bytes of a short entry made of a base and an extension: at most
/// eight and three of their bytes, upper-cased and padded with spaces.
pub open spec fn short_field(name: Seq<u8>, ext: Seq<u8>) -> Seq<u8> {
    pad_to(upper_all(prefix(name, 8)), 8, SPACE) + pad_to(upper_all(prefix(ext, 3)), 3, SPACE)
}

/// The entries that describe a file named `cs`: its long-name entries where its
/// name does not fit a short name, then its short entry.
#[verifier::opaque]
pub open spec fn file_entries_spec(cs: Seq<char>, cluster: u16, size: u32) -> Seq<Seq<u8>> {
    let bytes = encode_utf8(cs);
    let short = short_name_spec(bytes);
    let entry = short_entry_spec(short, ATTR_ARCHIVE, cluster, size);
    if fits_short_name(bytes) {
        seq![entry]
    } else {
        long_name_entries_spec(cs, short).push(entry)
    }
}

impl DirEntry {
    /// A short entry with the given eleven name bytes.
    pub fn raw_short(name: [u8; 11], attributes: u8, cluster: u16, size: u32) -> (e: Self)
        ensures
            e.0@ == short_entry_spec(name@, attributes, cluster, size),
    {
        let mut entry = [0u8; 32];
        let mut i: usize = 0;
        while i < 11
            invariant
                i <= 11,
                entry@.len() == 32,
                forall|p: int| 0 <= p < i ==> entry@[p] == name@[p],
                forall|p: int| i <= p < 32 ==> entry@[p] == 0,
            decreases 11 - i,
        {
            entry[i] = name[i];
            i = i + 1;
        }
        entry[11] = attributes;
        let c = u16_to_le_bytes(cluster);
        entry[26] = c[0];
        entry[27] = c[1];
        let s = u32_to_le_bytes(size);
        entry[28] = s[0];
        entry[29] = s[1];
        entry[30] = s[2];
        entry[31] = s[3];
        assert(entry@ =~= short_entry_spec(name@, attributes, cluster, size));
        DirEntry(entry)
    }

    /// A short entry named by up to eight bytes of `name` and three of `ext`,
    /// upper-cased.
    pub fn short(name: &str, ext: &str, attributes: u8, cluster: u16, size: u32) -> (e: Self)
        ensures
            e.0@ == short_entry_spec(
                short_field(name.spec_bytes(), ext.spec_bytes()),
                attributes,
                cluster,
                size,
            ),
    {
        let mut short = [0x20u8; 11];
        let nb = name.as_bytes();
        let eb = ext.as_bytes();
        let nl = if nb.len() < 8 {
            nb.len()
        } else {
            8
        };
        let el = if eb.len() < 3 {
            eb.len()
        } else {
            3
        };
        let mut i: usize = 0;
        while i < nl
            invariant
                i <= nl <= 8,
                nl <= nb@.len(),
                short@.len() == 11,
                forall|p: int| 0 <= p < i ==> short@[p] == crate::xtask::image::names::upper(nb@[p]),
                forall|p: int| i <= p < 11 ==> short@[p] == SPACE,
            decreases nl - i,
        {
            short[i] = to_ascii_uppercase(nb[i]);
            i = i + 1;
        }
        let mut j: usize = 0;
        while j < el
            invariant
                j <= el <= 3,
                nl <= 8,
                el <= eb@.len(),
                short@.len() == 11,
                forall|p: int| 0 <= p < nl ==> short@[p] == crate::xtask::image::names::upper(nb@[p]),
                forall|p: int| nl <= p < 8 ==> short@[p] == SPACE,
                forall|p: int|
                    0 <= p < j ==> short@[8 + p] == crate::xtask::image::names::upper(eb@[p]),
                forall|p: int| 8 + j <= p < 11 ==> short@[p] == SPACE,
            decreases el - j,
        {
            short[8 + j] = to_ascii_uppercase(eb[j]);
            j = j + 1;
        }
        assert(short@ =~= short_field(name.spec_bytes(), ext.spec_bytes()));
        Self::raw_short(short, attributes, cluster, size)
    }

    /// The entry of a subdirectory.
    pub fn directory(name: &str, cluster: u16) -> (e: Self)
        ensures
            e.0@ == short_entry_spec(
                short_field(name.spec_bytes(), Seq::empty()),
                ATTR_DIRECTORY,
                cluster,
                0,
            ),
    {
        proof {
            reveal_strlit("");
        }
        let mut entry = Self::short(name, "", ATTR_DIRECTORY, cluster, 0);
        entry.0[11] = ATTR_DIRECTORY;
        assert(entry.0@ =~= short_entry_spec(
            short_field(name.spec_bytes(), Seq::empty()),
            ATTR_DIRECTORY,
            cluster,
            0,
        ));
        entry
    }

    /// The `.` entry of a directory, pointing at the directory itself.
    pub fn dot(cluster: u16) -> (e: Self)
        ensures
            e.0@ == short_entry_spec(short_field(seq![0x2eu8], Seq::empty()), ATTR_DIRECTORY, cluster, 0),
    {
        proof {
            reveal_strlit(".");
            reveal_strlit("");
            vstd::string::is_ascii_spec_bytes(".");
            assert(".".spec_bytes() =~= seq![0x2eu8]);
        }
        Self::short(".", "", ATTR_DIRECTORY, cluster, 0)
    }

    /// The `..` entry of a directory, pointing at its parent (0 for the root).
    pub fn dotdot(cluster: u16) -> (e: Self)
        ensures
            e.0@ == short_entry_spec(
                short_field(seq![0x2eu8, 0x2eu8], Seq::empty()),
                ATTR_DIRECTORY,
                cluster,
                0,
            ),
    {
        proof {
            reveal_strlit("..");
            reveal_strlit("");
            vstd::string::is_ascii_spec_bytes("..");
            assert("..".spec_bytes() =~= seq![0x2eu8, 0x2eu8]);
        }
        Self::short("..", "", ATTR_DIRECTORY, cluster, 0)
    }

    /// The entries of a file: long-name entries where the name needs them, then
    /// the short entry.
    pub fn file(name: &str, cluster: u16, size: u32) -> (r: Vec<Self>)
        ensures
            entries_bytes(r@) == file_entries_spec(name@, cluster, size),
    {
        let (short, needs_lfn) = short_name(name);
        let mut entries: Vec<Self> = Vec::new();
        if needs_lfn {
            entries = long_name_entries(name, &short);
        }
        let e = Self::raw_short(short, ATTR_ARCHIVE, cluster, size);
        entries.push(e);
        reveal(file_entries_spec);
        assert(entries_bytes(entries@) =~= file_entries_spec(name@, cluster, size));
        entries
    }
}

/// The bytes `b` after the entries were written one after the other from `start`,
/// with a zero byte after the last one to end the directory.
#[verifier::opaque]
pub open spec fn with_entries(b: Seq<u8>, start: int, entries: Seq<Seq<u8>>) -> Seq<u8> {
    Seq::new(
        b.len(),
        |p: int|
            if start <= p < start + 32 * entries.len() {
                entries[(p - start) / 32][(p - start) % 32]
            } else if p == start + 32 * entries.len() {
                0u8
            } else {
                b[p]
            },
    )
}

/// Writes directory entries into the `capacity` bytes from `start`, followed by a
/// zero byte that ends the directory. Refused where that does not fit.
pub fn write_dir_entries(target: &mut Vec<u8>, start: usize, capacity: usize, entries: &[DirEntry]) -> (r:
    Result<(), ImageError>)
    requires
        start + capacity <= old(target)@.len(),
        32 * entries@.len() + 32 <= usize::MAX,
    ensures
        final(target)@.len() == old(target)@.len(),
        r is Ok <==> 32 * entries@.len() + 32 <= capacity,
        r is Err ==> r == Err::<(), ImageError>(ImageError::DirectoryFull) && final(target)@ == old(
            target,
        )@,
        r is Ok ==> final(target)@ == with_entries(old(target)@, start as int, entries_bytes(entries@)),
{
    let needed = entries.len() * 32;
    if needed + 32 > capacity {
        return Err(ImageError::DirectoryFull);
    }
    // Asking for the length brings in that it fits a `usize`.
    let _len = target.len();
    let ghost b0 = target@;
    let ghost eb = entries_bytes(entries@);
    let mut q: usize = 0;
    while q < needed
        invariant
            q <= needed == 32 * entries@.len(),
            needed + 32 <= capacity,
            start + capacity <= target@.len(),
            target@.len() <= usize::MAX,
            target@.len() == b0.len(),
            eb == entries_bytes(entries@),
            forall|p: int|
                0 <= p < target@.len() ==> #[trigger] target@[p] == if start <= p < start + q {
                    eb[(p - start) / 32][(p - start) % 32]
                } else {
                    b0[p]
                },
        decreases needed - q,
    {
        let e = entries[q / 32];
        proof {
            assert(eb[(q / 32) as int] == e.0@);
        }
        target.set(start + q, e.0[q % 32]);
        q = q + 1;
    }
    target.set(start + needed, 0);
    proof {
        reveal(with_entries);
        assert(target@ =~= with_entries(b0, start as int, eb));
    }
    Ok(())
}

} // verus!
