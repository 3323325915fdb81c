use vstd::prelude::*;

use crate::xtask::image::dir_entry::with_entries;
use crate::xtask::image::fat16::{
    chain_byte, chain_next, chained, cluster_offset_in, clusters_for, fat_entry_offset, stored,
    END_OF_CHAIN,
};
use crate::xtask::image::le::le16;

verus! {

/// The 16-bit little-endian value at byte `p` of `b`.
pub open spec fn read_le16(b: Seq<u8>, p: int) -> int {
    b[p] + 256 * b[p + 1]
}

/// Reading back a 16-bit value written little-endian gives the value.
pub proof fn lemma_le16_reads_back(v: u16)
    ensures
        le16(v)[0] + 256 * le16(v)[1] == v,
{
    assert(le16(v)[0] == (v as int) % 0x100);
    assert(le16(v)[1] == ((v as int) / 0x100) % 0x100);
}

/// The cluster that follows `c` in the first copy of the FAT of bytes `b`, whose
/// FATs start at sector `fs` and take `spf` sectors each.
pub open spec fn next_in_fat(b: Seq<u8>, fs: int, spf: int, c: int) -> int {
    read_le16(b, fat_entry_offset(fs, spf, 0, c))
}

/// Cluster `i` of the chain that starts at `first`, following the first FAT.
pub open spec fn chain_cluster(b: Seq<u8>, fs: int, spf: int, first: int, i: nat) -> int
    decreases i,
{
    if i == 0 {
        first
    } else {
        next_in_fat(b, fs, spf, chain_cluster(b, fs, spf, first, (i - 1) as nat))
    }
}

/// The first `len` bytes of the file whose chain starts at `first`, as a reader
/// finds them: byte `j` lies in cluster `j / 2048` of the chain, at offset
/// `j % 2048`; the data area starts at sector `ds`.
pub open spec fn read_file(b: Seq<u8>, fs: int, spf: int, ds: int, first: int, len: nat) -> Seq<u8> {
    Seq::new(
        len,
        |j: int| b[cluster_offset_in(ds, chain_cluster(b, fs, spf, first, (j / 2048) as nat)) + j % 2048],
    )
}

/// The layout of an image of `n` bytes: two FATs of `spf` sectors from sector
/// `fs`, the root directory, and the data area from sector `ds`, the FATs large
/// enough to map every cluster.
pub open spec fn layout_ok(fs: int, spf: int, ds: int, n: int) -> bool {
    &&& 0 <= fs
    &&& 0 <= spf
    &&& ds == fs + 2 * spf + 32
    &&& n % 512 == 0
    &&& ds <= n / 512
    &&& (data_clusters(ds, n) + 2) * 2 <= spf * 512
}

/// Data clusters of an image of `n` bytes whose data area starts at sector `ds`.
pub open spec fn data_clusters(ds: int, n: int) -> int {
    (n / 512 - ds) / 4
}

/// Bytes `b` hold a file with content `data` from cluster `first`: its clusters
/// are chained in the first FAT, and its content starts at the first cluster and
/// runs on through the following ones.
pub open spec fn holds_file(b: Seq<u8>, fs: int, spf: int, ds: int, first: int, data: Seq<u8>) -> bool {
    let k = clusters_for(data.len() as int);
    &&& forall|c: int|
        first <= c < first + k ==> #[trigger] next_in_fat(b, fs, spf, c) == chain_next(first, k, c)
    &&& forall|j: int|
        0 <= j < data.len() ==> #[trigger] b[cluster_offset_in(ds, first) + j] == data[j]
}

/// Facts on the layout that the proofs below share: where the FAT entries of the
/// clusters lie, and that the clusters lie inside the image.
proof fn lemma_layout_bounds(fs: int, spf: int, ds: int, n: int, first: int, k: int)
    requires
        layout_ok(fs, spf, ds, n),
        2 <= first,
        1 <= k,
        first + k <= data_clusters(ds, n) + 2,
    ensures
        fat_entry_offset(fs, spf, 1, 0) == fat_entry_offset(fs, spf, 0, 0) + spf * 512,
        fat_entry_offset(fs, spf, 0, first + k) <= fat_entry_offset(fs, spf, 1, 0),
        fat_entry_offset(fs, spf, 1, first + k) <= (fs + 2 * spf) * 512,
        (fs + 2 * spf) * 512 + 16384 == ds * 512,
        ds * 512 <= cluster_offset_in(ds, first),
        forall|i: int| #[trigger] cluster_offset_in(ds, first + i) == cluster_offset_in(ds, first) + 2048 * i,
        cluster_offset_in(ds, first + k) <= n,
{
    assert(2 * (first + k) <= spf * 512) by (nonlinear_arith)
        requires
            (data_clusters(ds, n) + 2) * 2 <= spf * 512,
            first + k <= data_clusters(ds, n) + 2,
    ;
    assert(fat_entry_offset(fs, spf, 1, 0) == fat_entry_offset(fs, spf, 0, 0) + spf * 512) by (nonlinear_arith);
    assert(fat_entry_offset(fs, spf, 1, first + k) <= (fs + 2 * spf) * 512) by (nonlinear_arith)
        requires
            2 * (first + k) <= spf * 512,
    ;
    assert(cluster_offset_in(ds, first + k) <= n) by (nonlinear_arith)
        requires
            first + k <= data_clusters(ds, n) + 2,
            data_clusters(ds, n) == (n / 512 - ds) / 4,
            n % 512 == 0,
            ds <= n / 512,
    ;
    assert forall|i: int| #[trigger] cluster_offset_in(ds, first + i) == cluster_offset_in(ds, first)
        + 2048 * i by {}
}

/// A file just stored is held by the image.
pub proof fn lemma_stored_holds_file(fs: int, spf: int, ds: int, b: Seq<u8>, first: int, data: Seq<u8>)
    requires
        layout_ok(fs, spf, ds, b.len() as int),
        2 <= first,
        first + clusters_for(data.len() as int) <= data_clusters(ds, b.len() as int) + 2,
        first + clusters_for(data.len() as int) <= 0xffff,
    ensures
        holds_file(stored(fs, spf, ds, b, first, clusters_for(data.len() as int), data), fs, spf, ds, first, data),
        stored(fs, spf, ds, b, first, clusters_for(data.len() as int), data).len() == b.len(),
{
    reveal(stored);
    reveal(chained);
    let k = clusters_for(data.len() as int);
    let ch = chained(fs, spf, b, first, k, k);
    let s = stored(fs, spf, ds, b, first, k, data);
    let d = cluster_offset_in(ds, first);
    let f0 = fat_entry_offset(fs, spf, 0, 0);
    let f1 = fat_entry_offset(fs, spf, 1, 0);
    lemma_layout_bounds(fs, spf, ds, b.len() as int, first, k);
    assert(cluster_offset_in(ds, first + k) == d + 2048 * k);
    assert(data.len() <= 2048 * k);
    assert forall|c: int| first <= c < first + k implies #[trigger] next_in_fat(s, fs, spf, c)
        == chain_next(first, k, c) by {
        let p = fat_entry_offset(fs, spf, 0, c);
        assert(p == f0 + 2 * c);
        assert(p + 1 < f1);
        assert(s[p] == ch[p]);
        assert(s[p + 1] == ch[p + 1]);
        assert(ch[p] == chain_byte(f0, first, k, k, p, b[p]));
        assert(ch[p + 1] == chain_byte(f0, first, k, k, p + 1, b[p + 1]));
        assert((p - f0) / 2 == c && (p - f0) % 2 == 0);
        assert((p + 1 - f0) / 2 == c && (p + 1 - f0) % 2 == 1);
        lemma_le16_reads_back(chain_next(first, k, c));
    }
    assert forall|j: int| 0 <= j < data.len() implies #[trigger] s[d + j] == data[j] by {}
}

/// Bytes that hold a file read it back: following its chain from the first
/// cluster gives its content, and the chain ends at its last cluster.
pub proof fn lemma_held_file_reads_back(fs: int, spf: int, ds: int, b: Seq<u8>, first: int, data: Seq<u8>)
    requires
        holds_file(b, fs, spf, ds, first, data),
        0 <= first,
        first + clusters_for(data.len() as int) <= 0xffff,
    ensures
        ({
            let k = clusters_for(data.len() as int);
            &&& read_file(b, fs, spf, ds, first, data.len()) == data
            &&& next_in_fat(b, fs, spf, chain_cluster(b, fs, spf, first, (k - 1) as nat)) == END_OF_CHAIN
        }),
{
    let k = clusters_for(data.len() as int);
    assert forall|i: nat| i < k implies #[trigger] chain_cluster(b, fs, spf, first, i) == first + i by {
        lemma_chain_is_consecutive(b, fs, spf, first, k, i);
    }
    assert forall|j: int| 0 <= j < data.len() implies #[trigger] read_file(b, fs, spf, ds, first, data.len())[j]
        == data[j] by {
        let i = j / 2048;
        assert(0 <= i < k);
        assert(chain_cluster(b, fs, spf, first, i as nat) == first + i);
        assert(cluster_offset_in(ds, first + i) + j % 2048 == cluster_offset_in(ds, first) + j);
    }
    assert(read_file(b, fs, spf, ds, first, data.len()) =~= data);
    assert(chain_cluster(b, fs, spf, first, (k - 1) as nat) == first + k - 1);
}

/// A file stored in the image reads back: following its chain from the first
/// cluster, through the first FAT, gives exactly its content, and the chain ends
/// at its last cluster.
pub proof fn lemma_stored_file_reads_back(fs: int, spf: int, ds: int, b: Seq<u8>, first: int, data: Seq<u8>)
    requires
        layout_ok(fs, spf, ds, b.len() as int),
        2 <= first,
        first + clusters_for(data.len() as int) <= data_clusters(ds, b.len() as int) + 2,
        first + clusters_for(data.len() as int) <= 0xffff,
    ensures
        ({
            let k = clusters_for(data.len() as int);
            let s = stored(fs, spf, ds, b, first, k, data);
            &&& read_file(s, fs, spf, ds, first, data.len()) == data
            &&& next_in_fat(s, fs, spf, chain_cluster(s, fs, spf, first, (k - 1) as nat)) == END_OF_CHAIN
        }),
{
    lemma_stored_holds_file(fs, spf, ds, b, first, data);
    lemma_held_file_reads_back(
        fs,
        spf,
        ds,
        stored(fs, spf, ds, b, first, clusters_for(data.len() as int), data),
        first,
        data,
    );
}

/// Following a chain whose entries count up reaches `first + i` after `i` steps.
proof fn lemma_chain_is_consecutive(b: Seq<u8>, fs: int, spf: int, first: int, k: int, i: nat)
    requires
        i < k,
        forall|c: int| first <= c < first + k ==> #[trigger] next_in_fat(b, fs, spf, c) == chain_next(first, k, c),
        first + k <= 0xffff,
        0 <= first,
    ensures
        chain_cluster(b, fs, spf, first, i) == first + i,
    decreases i,
{
    if i > 0 {
        lemma_chain_is_consecutive(b, fs, spf, first, k, (i - 1) as nat);
        assert(next_in_fat(b, fs, spf, first + i - 1) == chain_next(first, k, first + i - 1));
    }
}

/// Bytes that agree with `b` on the FAT entries and the content of a file that
/// `b` holds hold it too.
pub proof fn lemma_holds_file_frame(
    b: Seq<u8>,
    b2: Seq<u8>,
    fs: int,
    spf: int,
    ds: int,
    first: int,
    data: Seq<u8>,
)
    requires
        holds_file(b, fs, spf, ds, first, data),
        forall|c: int|
            first <= c < first + clusters_for(data.len() as int) ==> {
                let p = #[trigger] fat_entry_offset(fs, spf, 0, c);
                b2[p] == b[p] && b2[p + 1] == b[p + 1]
            },
        forall|j: int|
            0 <= j < data.len() ==> b2[#[trigger] (cluster_offset_in(ds, first) + j)] == b[cluster_offset_in(
                ds,
                first,
            ) + j],
    ensures
        holds_file(b2, fs, spf, ds, first, data),
{
    let k = clusters_for(data.len() as int);
    assert forall|c: int| first <= c < first + k implies #[trigger] next_in_fat(b2, fs, spf, c)
        == chain_next(first, k, c) by {
        let p = fat_entry_offset(fs, spf, 0, c);
        assert(b2[p] == b[p] && b2[p + 1] == b[p + 1]);
        assert(next_in_fat(b, fs, spf, c) == chain_next(first, k, c));
    }
    assert forall|j: int| 0 <= j < data.len() implies #[trigger] b2[cluster_offset_in(ds, first) + j]
        == data[j] by {
        assert(b2[cluster_offset_in(ds, first) + j] == b[cluster_offset_in(ds, first) + j]);
    }
}

/// Storing a file changes no byte outside its FAT entries, in both copies, and
/// its content.
pub proof fn lemma_stored_keeps(
    fs: int,
    spf: int,
    ds: int,
    b: Seq<u8>,
    first: int,
    k: int,
    data: Seq<u8>,
    p: int,
)
    requires
        0 <= p < b.len(),
        p < fat_entry_offset(fs, spf, 0, first) || p >= fat_entry_offset(fs, spf, 0, first + k),
        p < fat_entry_offset(fs, spf, 1, first) || p >= fat_entry_offset(fs, spf, 1, first + k),
        p < cluster_offset_in(ds, first) || p >= cluster_offset_in(ds, first) + data.len(),
    ensures
        stored(fs, spf, ds, b, first, k, data)[p] == b[p],
{
    reveal(stored);
    reveal(chained);
    let f0 = fat_entry_offset(fs, spf, 0, 0);
    let f1 = fat_entry_offset(fs, spf, 1, 0);
    assert(fat_entry_offset(fs, spf, 0, first) == f0 + 2 * first);
    assert(fat_entry_offset(fs, spf, 1, first) == f1 + 2 * first);
    assert(fat_entry_offset(fs, spf, 0, first + k) == f0 + 2 * (first + k));
    assert(fat_entry_offset(fs, spf, 1, first + k) == f1 + 2 * (first + k));
}

/// Writing directory entries changes no byte before them or after the end mark.
pub proof fn lemma_with_entries_keeps(b: Seq<u8>, start: int, entries: Seq<Seq<u8>>, p: int)
    requires
        0 <= p < b.len(),
        p < start || p > start + 32 * entries.len(),
    ensures
        with_entries(b, start, entries)[p] == b[p],
        with_entries(b, start, entries).len() == b.len(),
{
    reveal(with_entries);
}

} // verus!
