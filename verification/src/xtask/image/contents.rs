use vstd::prelude::*;

use crate::xtask::image::dir_entry::with_entries;
use crate::xtask::image::fat16::{
    chained, cluster_offset_in, clusters_for, fat_entry_offset, fat_sectors_for,
    fat_sectors_round, image_size_accepted, room_for_fats, settles_at, stored, END_OF_CHAIN,
};
use crate::xtask::image::files::{
    boot_dir_entry, dot_entry, dotdot_entry, entries_fit, files_fit, formatted_bytes,
    fresh_cluster_count, fresh_data_start, fresh_fat_sectors, image_builds, image_bytes, lemma_place_grows,
    lemma_place_monotone, lemma_place_prefix, lemma_unfold_step, limine_dir_entry, place_files,
    store_files, ImageFile,
};
use crate::xtask::image::boot_record::{with_boot_sector, with_mbr};
use crate::xtask::image::reader::{
    chain_cluster, data_clusters, holds_file, layout_ok, lemma_held_file_reads_back,
    lemma_holds_file_frame, lemma_stored_holds_file, lemma_stored_keeps, lemma_with_entries_keeps,
    next_in_fat, read_file,
};

verus! {

/// Where all files place without failure, so do the first `m` of them.
proof fn lemma_place_no_failure(files: Seq<ImageFile>, m: int, next: int)
    requires
        0 <= m <= files.len(),
        place_files(files, next).0 < 0,
    ensures
        place_files(files.take(m), next).0 < 0,
{
    if place_files(files.take(m), next).0 >= 0 {
        lemma_place_prefix(files, m, next);
    }
}

/// Where all files place without failure, placing file `m` takes the next
/// clusters, within the cluster numbers.
proof fn lemma_place_step_ok(files: Seq<ImageFile>, m: int, next: int)
    requires
        0 <= m < files.len(),
        place_files(files, next).0 < 0,
    ensures
        place_files(files.take(m + 1), next).2 == place_files(files.take(m), next).2 + clusters_for(
            files[m].data@.len() as int,
        ),
        place_files(files.take(m), next).2 + clusters_for(files[m].data@.len() as int) <= 0xffff,
{
    lemma_place_no_failure(files, m, next);
    lemma_place_no_failure(files, m + 1, next);
    lemma_unfold_step(files, m, next, 0, 0, 0, Seq::empty());
}

/// Storing files keeps the length of the image.
proof fn lemma_store_files_len(fs: int, spf: int, ds: int, b: Seq<u8>, files: Seq<ImageFile>, next: int)
    ensures
        store_files(fs, spf, ds, b, files, next).len() == b.len(),
    decreases files.len(),
{
    if files.len() > 0 {
        reveal(stored);
        lemma_store_files_len(fs, spf, ds, b, files.drop_last(), next);
    }
}

/// The layout of a fresh image whose size is accepted.
proof fn lemma_fresh_layout(size: int)
    requires
        size % 512 == 0,
        image_size_accepted(size),
    ensures
        layout_ok(2049, fresh_fat_sectors(size), fresh_data_start(size), size),
        data_clusters(fresh_data_start(size), size) == fresh_cluster_count(size),
        formatted_bytes(size).len() == size,
{
    let ps = size / 512 - 2048;
    let n0 = choose|n: nat| settles_at(ps, n);
    let spf = fresh_fat_sectors(size);
    assert(spf == fat_sectors_round(ps, n0));
    assert(room_for_fats(ps, fat_sectors_round(ps, n0)));
    assert(fat_sectors_for(ps, spf) == spf);
    let clusters = (ps - 1 - 2 * spf - 32) / 4;
    assert(clusters >= 0);
    assert(data_clusters(fresh_data_start(size), size) == clusters);
    assert((clusters + 2) * 2 <= spf * 512) by (nonlinear_arith)
        requires
            spf == ((clusters + 2) * 2 + 511) / 512,
            clusters >= 0,
    ;
}

/// Positions of file `i`'s FAT entries and content lie outside what the files
/// after it change: their FAT entries and their content.
proof fn lemma_later_stores_keep_file(
    spf: int,
    ds: int,
    b1: Seq<u8>,
    files: Seq<ImageFile>,
    i: int,
    m: int,
)
    requires
        layout_ok(2049, spf, ds, b1.len() as int),
        place_files(files, 4).0 < 0,
        place_files(files, 4).2 <= data_clusters(ds, b1.len() as int) + 2,
        0 <= i < m <= files.len(),
    ensures
        holds_file(
            store_files(2049, spf, ds, b1, files.take(m), 4),
            2049,
            spf,
            ds,
            place_files(files.take(i), 4).2,
            files[i].data@,
        ),
        place_files(files.take(i), 4).2 + clusters_for(files[i].data@.len() as int) <= place_files(
            files.take(m),
            4,
        ).2,
    decreases m,
{
    let first = place_files(files.take(i), 4).2;
    let data = files[i].data@;
    let k = clusters_for(data.len() as int);
    lemma_place_no_failure(files, i, 4);
    lemma_place_step_ok(files, i, 4);
    lemma_place_grows(files.take(i), 4);
    lemma_store_files_len(2049, spf, ds, b1, files.take(i), 4);
    lemma_place_no_failure(files, i + 1, 4);
    lemma_place_monotone(files, i + 1, 4);
    if m == i + 1 {
        lemma_unfold_step(files, i, 4, 2049, spf, ds, b1);
        lemma_stored_holds_file(
            2049,
            spf,
            ds,
            store_files(2049, spf, ds, b1, files.take(i), 4),
            first,
            data,
        );
    } else {
        lemma_later_stores_keep_file(spf, ds, b1, files, i, m - 1);
        let j = m - 1;
        let fj = place_files(files.take(j), 4).2;
        let kj = clusters_for(files[j].data@.len() as int);
        let before = store_files(2049, spf, ds, b1, files.take(j), 4);
        let after = store_files(2049, spf, ds, b1, files.take(m), 4);
        lemma_place_step_ok(files, j, 4);
        lemma_place_no_failure(files, j, 4);
        lemma_place_no_failure(files, m, 4);
        lemma_place_monotone(files, m, 4);
        lemma_unfold_step(files, j, 4, 2049, spf, ds, b1);
        lemma_store_files_len(2049, spf, ds, b1, files.take(j), 4);
        assert(after == stored(2049, spf, ds, before, fj, kj, files[j].data@));
        assert(2 * (fj + kj) <= spf * 512) by (nonlinear_arith)
            requires
                (data_clusters(ds, b1.len() as int) + 2) * 2 <= spf * 512,
                fj + kj <= data_clusters(ds, b1.len() as int) + 2,
        ;
        assert(cluster_offset_in(ds, first + k) <= b1.len()) by (nonlinear_arith)
            requires
                first + k <= data_clusters(ds, b1.len() as int) + 2,
                data_clusters(ds, b1.len() as int) == (b1.len() / 512 - ds) / 4,
                b1.len() % 512 == 0,
                ds <= b1.len() / 512,
        ;
        assert(data.len() <= 2048 * k);
        assert forall|c: int| first <= c < first + k implies {
            let p = #[trigger] fat_entry_offset(2049, spf, 0, c);
            after[p] == before[p] && after[p + 1] == before[p + 1]
        } by {
            let p = fat_entry_offset(2049, spf, 0, c);
            lemma_stored_keeps(2049, spf, ds, before, fj, kj, files[j].data@, p);
            lemma_stored_keeps(2049, spf, ds, before, fj, kj, files[j].data@, p + 1);
        }
        assert forall|q: int| 0 <= q < data.len() implies after[#[trigger] (cluster_offset_in(ds, first) + q)]
            == before[cluster_offset_in(ds, first) + q] by {
            lemma_stored_keeps(
                2049,
                spf,
                ds,
                before,
                fj,
                kj,
                files[j].data@,
                cluster_offset_in(ds, first) + q,
            );
        }
        lemma_holds_file_frame(before, after, 2049, spf, ds, first, data);
    }
}

/// A built image holds every file: a reader that follows the file's chain in the
/// first FAT, from the cluster that its directory entry names, reads exactly its
/// content, and the chain ends at the file's last cluster.
pub proof fn lemma_image_holds_files(size: int, files: Seq<ImageFile>, i: int)
    requires
        image_size_accepted(size),
        files_fit(4, fresh_cluster_count(size) + 2, files),
        image_builds(size, files),
        0 <= i < files.len(),
    ensures
        ({
            let spf = fresh_fat_sectors(size);
            let ds = fresh_data_start(size);
            let first = place_files(files.take(i), 4).2;
            let data = files[i].data@;
            let k = clusters_for(data.len() as int);
            let b = image_bytes(size, files);
            &&& read_file(b, 2049, spf, ds, first, data.len()) == data
            &&& next_in_fat(b, 2049, spf, chain_cluster(b, 2049, spf, first, (k - 1) as nat))
                == END_OF_CHAIN
        }),
{
    let spf = fresh_fat_sectors(size);
    let ds = fresh_data_start(size);
    let n = files.len() as int;
    let plan = place_files(files, 4);
    let first = place_files(files.take(i), 4).2;
    let data = files[i].data@;
    let k = clusters_for(data.len() as int);
    let b1 = chained(2049, spf, formatted_bytes(size), 2, 1, 1);
    lemma_fresh_layout(size);
    reveal(chained);
    assert(b1.len() == size);
    assert(files.take(n) =~= files);
    lemma_later_stores_keep_file(spf, ds, b1, files, i, n);
    lemma_place_grows(files.take(i), 4);
    lemma_place_step_ok(files, i, 4);
    let s = store_files(2049, spf, ds, b1, files, 4);
    lemma_store_files_len(2049, spf, ds, b1, files, 4);
    let root = seq![boot_dir_entry(2)] + plan.3;
    let boot = seq![dot_entry(2), dotdot_entry(0), limine_dir_entry(3)] + plan.4;
    let limine = seq![dot_entry(3), dotdot_entry(2)] + plan.5;
    let w1 = with_entries(s, (2049 + 2 * spf) * 512, root);
    let w2 = with_entries(w1, cluster_offset_in(ds, 2), boot);
    let w3 = with_entries(w2, cluster_offset_in(ds, 3), limine);
    assert(w3 == image_bytes(size, files));
    assert(2 * (first + k) <= spf * 512) by (nonlinear_arith)
        requires
            (data_clusters(ds, size) + 2) * 2 <= spf * 512,
            first + k <= data_clusters(ds, size) + 2,
    ;
    assert(cluster_offset_in(ds, first + k) <= size) by (nonlinear_arith)
        requires
            first + k <= data_clusters(ds, size) + 2,
            data_clusters(ds, size) == (size / 512 - ds) / 4,
            size % 512 == 0,
            ds <= size / 512,
    ;
    assert(data.len() <= 2048 * k);
    // The directories lie in the root directory area and in clusters 2 and 3:
    // before the file's content, and after its FAT entries.
    assert forall|p: int|
        0 <= p < size && (fat_entry_offset(2049, spf, 0, first) <= p < fat_entry_offset(
            2049,
            spf,
            0,
            first + k,
        ) + 1 || cluster_offset_in(ds, first) <= p < cluster_offset_in(ds, first)
            + data.len()) implies #[trigger] w3[p] == s[p] by {
        lemma_with_entries_keeps(s, (2049 + 2 * spf) * 512, root, p);
        lemma_with_entries_keeps(w1, cluster_offset_in(ds, 2), boot, p);
        lemma_with_entries_keeps(w2, cluster_offset_in(ds, 3), limine, p);
    }
    assert forall|c: int| first <= c < first + k implies {
        let p = #[trigger] fat_entry_offset(2049, spf, 0, c);
        w3[p] == s[p] && w3[p + 1] == s[p + 1]
    } by {
        let p = fat_entry_offset(2049, spf, 0, c);
        assert(w3[p] == s[p]);
        assert(w3[p + 1] == s[p + 1]);
    }
    assert forall|q: int| 0 <= q < data.len() implies w3[#[trigger] (cluster_offset_in(ds, first) + q)]
        == s[cluster_offset_in(ds, first) + q] by {
        assert(w3[cluster_offset_in(ds, first) + q] == s[cluster_offset_in(ds, first) + q]);
    }
    lemma_holds_file_frame(s, w3, 2049, spf, ds, first, data);
    lemma_held_file_reads_back(2049, spf, ds, w3, first, data);
}

} // verus!
