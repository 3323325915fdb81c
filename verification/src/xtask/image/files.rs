use vstd::prelude::*;
use vstd::string::StringSliceAdditionalSpecFns;
use vstd::utf8::decode_utf8;

use crate::xtask::image::dir_entry::{
    entries_bytes, file_entries_spec, short_entry_spec, short_field, with_entries, DirEntry,
    ATTR_DIRECTORY,
};
use crate::xtask::image::error::ImageError;
use crate::xtask::image::boot_record::{with_boot_sector, with_mbr};
use crate::xtask::image::fat16::{
    chained, cluster_offset_in, clusters_for, fat_entry_offset, image_size_accepted,
    settled_fat_sectors, Fat16Image,
};
use crate::xtask::image::le::le16;
use crate::xtask::image::path::{dir_part, last_slash, name_part, split_path};

verus! {

broadcast use vstd::utf8::encode_utf8_decode_utf8;

/// A file to be placed in the image: its absolute path and its content.
pub struct ImageFile {
    pub path: &'static str,
    pub data: Vec<u8>,
}

impl ImageFile {
    /// A file with the given path and content.
    pub fn new(path: &'static str, data: Vec<u8>) -> (f: Self)
        ensures
            f.path == path,
            f.data@ == data@,
    {
        Self { path, data }
    }
}

/// The bytes of `/`.
pub open spec fn dir_root() -> Seq<u8> {
    seq![0x2fu8]
}

/// The bytes of `/boot`.
pub open spec fn dir_boot() -> Seq<u8> {
    seq![0x2fu8, 0x62, 0x6f, 0x6f, 0x74]
}

/// The bytes of `/boot/limine`.
pub open spec fn dir_limine() -> Seq<u8> {
    seq![0x2fu8, 0x62, 0x6f, 0x6f, 0x74, 0x2f, 0x6c, 0x69, 0x6d, 0x69, 0x6e, 0x65]
}

/// Kinds of failure while placing files.
pub open spec fn kind_invalid_path() -> int {
    1
}

pub open spec fn kind_out_of_clusters() -> int {
    2
}

pub open spec fn kind_unsupported_path() -> int {
    3
}

/// Placing one more file, the `i`-th, after a placement `prev` without failure:
/// the failure (index and kind) if it fails, the next free cluster after it, and
/// the directory entries of the root, `/boot` and `/boot/limine`.
pub open spec fn place_step(
    prev: (int, int, int, Seq<Seq<u8>>, Seq<Seq<u8>>, Seq<Seq<u8>>),
    f: ImageFile,
    i: int,
) -> (int, int, int, Seq<Seq<u8>>, Seq<Seq<u8>>, Seq<Seq<u8>>) {
    let s = f.path.spec_bytes();
    let slash = last_slash(s);
    if slash < 0 {
        (i, kind_invalid_path(), prev.2, prev.3, prev.4, prev.5)
    } else {
        let k = clusters_for(f.data@.len() as int);
        if prev.2 + k > 0xffff {
            (i, kind_out_of_clusters(), prev.2, prev.3, prev.4, prev.5)
        } else {
            let entries = file_entries_spec(
                decode_utf8(name_part(s, slash)),
                prev.2 as u16,
                f.data@.len() as u32,
            );
            let d = dir_part(s, slash);
            if d == dir_root() {
                (-1, 0, prev.2 + k, prev.3 + entries, prev.4, prev.5)
            } else if d == dir_boot() {
                (-1, 0, prev.2 + k, prev.3, prev.4 + entries, prev.5)
            } else if d == dir_limine() {
                (-1, 0, prev.2 + k, prev.3, prev.4, prev.5 + entries)
            } else {
                (i, kind_unsupported_path(), prev.2 + k, prev.3, prev.4, prev.5)
            }
        }
    }
}

/// How files are placed in the image, one after the other, from cluster `next`:
/// the index of the file that fails (or -1) and why, the next free cluster after
/// them, and the directory entries they add to the root, `/boot` and
/// `/boot/limine`.
pub open spec fn place_files(files: Seq<ImageFile>, next: int) -> (
    int,
    int,
    int,
    Seq<Seq<u8>>,
    Seq<Seq<u8>>,
    Seq<Seq<u8>>,
)
    decreases files.len(),
{
    if files.len() == 0 {
        (-1, 0, next, Seq::empty(), Seq::empty(), Seq::empty())
    } else {
        let prev = place_files(files.drop_last(), next);
        if prev.0 >= 0 {
            prev
        } else {
            place_step(prev, files.last(), files.len() - 1)
        }
    }
}

/// The image bytes `b` after the content of every file was stored in its clusters,
/// the clusters handed out one after the other from `next`.
pub open spec fn store_files(
    fat_start: int,
    spf: int,
    data_start: int,
    b: Seq<u8>,
    files: Seq<ImageFile>,
    next: int,
) -> Seq<u8>
    decreases files.len(),
{
    if files.len() == 0 {
        b
    } else {
        let before = store_files(fat_start, spf, data_start, b, files.drop_last(), next);
        let first = place_files(files.drop_last(), next).2;
        crate::xtask::image::fat16::stored(
            fat_start,
            spf,
            data_start,
            before,
            first,
            clusters_for(files.last().data@.len() as int),
            files.last().data@,
        )
    }
}

/// A failure decided by a prefix of the files stays the failure of all of them.
pub(crate) proof fn lemma_place_prefix(files: Seq<ImageFile>, j: int, next: int)
    requires
        0 <= j <= files.len(),
        place_files(files.take(j), next).0 >= 0,
    ensures
        place_files(files, next) == place_files(files.take(j), next),
    decreases files.len() - j,
{
    if j == files.len() {
        assert(files.take(j) =~= files);
    } else {
        assert(files.take(j + 1).drop_last() =~= files.take(j));
        lemma_place_prefix(files, j + 1, next);
    }
}

/// Whether the bytes of `d` are those of `expected`.
fn bytes_equal(d: &[u8], expected: &[u8]) -> (r: bool)
    ensures
        r == (d@ == expected@),
{
    if d.len() != expected.len() {
        return false;
    }
    let mut i: usize = 0;
    while i < d.len()
        invariant
            i <= d@.len() == expected@.len(),
            forall|j: int| 0 <= j < i ==> d@[j] == expected@[j],
        decreases d@.len() - i,
    {
        if d[i] != expected[i] {
            return false;
        }
        i = i + 1;
    }
    assert(d@ =~= expected@);
    true
}

/// A prefix of the files that places without failure ends no later than all of
/// them do.
pub(crate) proof fn lemma_place_monotone(files: Seq<ImageFile>, j: int, next: int)
    requires
        0 <= j <= files.len(),
        place_files(files.take(j), next).0 < 0,
    ensures
        place_files(files.take(j), next).2 <= place_files(files, next).2,
        place_files(files.take(j), next).2 >= next,
    decreases files.len() - j,
{
    lemma_place_grows(files.take(j), next);
    if j == files.len() {
        assert(files.take(j) =~= files);
    } else {
        assert(files.take(j + 1).drop_last() =~= files.take(j));
        if place_files(files.take(j + 1), next).0 < 0 {
            lemma_place_monotone(files, j + 1, next);
        } else {
            lemma_place_prefix(files, j + 1, next);
        }
    }
}

/// Placing files never moves the next free cluster back.
pub(crate) proof fn lemma_place_grows(files: Seq<ImageFile>, next: int)
    ensures
        place_files(files, next).2 >= next,
    decreases files.len(),
{
    if files.len() > 0 {
        lemma_place_grows(files.drop_last(), next);
    }
}

/// Placing and storing one more file extends the placement and the stored bytes
/// of the files before it by one step.
pub(crate) proof fn lemma_unfold_step(
    files: Seq<ImageFile>,
    i: int,
    next: int,
    fat_start: int,
    spf: int,
    data_start: int,
    b: Seq<u8>,
)
    requires
        0 <= i < files.len(),
        place_files(files.take(i), next).0 < 0,
    ensures
        place_files(files.take(i + 1), next) == place_step(
            place_files(files.take(i), next),
            files[i],
            i,
        ),
        store_files(fat_start, spf, data_start, b, files.take(i + 1), next)
            == crate::xtask::image::fat16::stored(
            fat_start,
            spf,
            data_start,
            store_files(fat_start, spf, data_start, b, files.take(i), next),
            place_files(files.take(i), next).2,
            clusters_for(files[i].data@.len() as int),
            files[i].data@,
        ),
{
    assert(files.take(i + 1).drop_last() =~= files.take(i));
    assert(files.take(i + 1).last() == files[i]);
    assert(files.take(i + 1).len() - 1 == i);
}

/// The entry of the `BOOT` directory in the root.
pub open spec fn boot_dir_entry(cluster: u16) -> Seq<u8> {
    short_entry_spec(short_field(seq![0x42u8, 0x4f, 0x4f, 0x54], Seq::empty()), ATTR_DIRECTORY, cluster, 0)
}

/// The entry of the `LIMINE` directory in `/boot`.
pub open spec fn limine_dir_entry(cluster: u16) -> Seq<u8> {
    short_entry_spec(
        short_field(seq![0x4cu8, 0x49, 0x4d, 0x49, 0x4e, 0x45], Seq::empty()),
        ATTR_DIRECTORY,
        cluster,
        0,
    )
}

/// The `.` entry of a directory in `cluster`.
pub open spec fn dot_entry(cluster: u16) -> Seq<u8> {
    short_entry_spec(short_field(seq![0x2eu8], Seq::empty()), ATTR_DIRECTORY, cluster, 0)
}

/// The `..` entry of a directory whose parent is in `cluster`.
pub open spec fn dotdot_entry(cluster: u16) -> Seq<u8> {
    short_entry_spec(short_field(seq![0x2eu8, 0x2e], Seq::empty()), ATTR_DIRECTORY, cluster, 0)
}

/// Whether `n` entries and the end mark fit `capacity` bytes.
pub open spec fn entries_fit(n: int, capacity: int) -> bool {
    32 * n + 32 <= capacity
}

impl Fat16Image {
    /// Places one file: stores its content in fresh clusters and adds its entries
    /// to the directory it names.
    fn place_file(
        &mut self,
        file: &ImageFile,
        root_entries: &mut Vec<DirEntry>,
        boot_entries: &mut Vec<DirEntry>,
        limine_entries: &mut Vec<DirEntry>,
    ) -> (r: Result<(), ImageError>)
        requires
            old(self).wf(),
            ({
                let s = file.path.spec_bytes();
                let slash = last_slash(s);
                let k = clusters_for(file.data@.len() as int);
                slash >= 0 && old(self).next_cluster + k <= 0xffff ==> old(self).next_cluster + k
                    <= old(self).cluster_count() + 2
            }),
        ensures
            final(self).wf(),
            final(self).same_layout(old(self)),
            ({
                let s = file.path.spec_bytes();
                let slash = last_slash(s);
                let k = clusters_for(file.data@.len() as int);
                let n = old(self).next_cluster as int;
                let entries = file_entries_spec(
                    decode_utf8(name_part(s, slash)),
                    n as u16,
                    file.data@.len() as u32,
                );
                let d = dir_part(s, slash);
                &&& slash < 0 ==> (r matches Err(ImageError::InvalidPath(p)) && p@ == file.path@)
                &&& slash >= 0 && n + k > 0xffff ==> r == Err::<(), ImageError>(
                    ImageError::OutOfClusters,
                )
                &&& slash >= 0 && n + k <= 0xffff ==> {
                    &&& final(self).next_cluster == n + k
                    &&& final(self).bytes@ == old(self).with_file(old(self).bytes@, n, k, file.data@)
                    &&& d == dir_root() ==> r is Ok && entries_bytes(final(root_entries)@)
                        == entries_bytes(old(root_entries)@) + entries && final(boot_entries)@ == old(
                        boot_entries,
                    )@ && final(limine_entries)@ == old(limine_entries)@
                    &&& d == dir_boot() ==> r is Ok && entries_bytes(final(boot_entries)@)
                        == entries_bytes(old(boot_entries)@) + entries && final(root_entries)@ == old(
                        root_entries,
                    )@ && final(limine_entries)@ == old(limine_entries)@
                    &&& d == dir_limine() ==> r is Ok && entries_bytes(final(limine_entries)@)
                        == entries_bytes(old(limine_entries)@) + entries && final(root_entries)@
                        == old(root_entries)@ && final(boot_entries)@ == old(boot_entries)@
                    &&& d != dir_root() && d != dir_boot() && d != dir_limine() ==> (r matches Err(
                        ImageError::UnsupportedPath(p),
                    ) && p@ == file.path@)
                }
            }),
    {
        let (directory, name) = match split_path(file.path) {
            Ok(parts) => parts,
            Err(e) => {
                return Err(e);
            },
        };
        let cluster = match self.write_file_data(file.data.as_slice()) {
            Ok(c) => c,
            Err(e) => {
                return Err(e);
            },
        };
        let size = file.data.len() as u32;
        let dbytes = directory.as_bytes();
        proof {
            vstd::utf8::encode_utf8_decode_utf8(name@);
            assert(decode_utf8(name_part(file.path.spec_bytes(), last_slash(file.path.spec_bytes())))
                == name@);
        }
        let root_name: [u8; 1] = [0x2f];
        let boot_name: [u8; 5] = [0x2f, 0x62, 0x6f, 0x6f, 0x74];
        let limine_name: [u8; 12] = [0x2f, 0x62, 0x6f, 0x6f, 0x74, 0x2f, 0x6c, 0x69, 0x6d, 0x69, 0x6e, 0x65];
        assert(root_name@ =~= dir_root());
        assert(boot_name@ =~= dir_boot());
        assert(limine_name@ =~= dir_limine());
        if bytes_equal(dbytes, root_name.as_slice()) {
            let mut e = DirEntry::file(name, cluster, size);
            let ghost eb = entries_bytes(e@);
            root_entries.append(&mut e);
            assert(entries_bytes(root_entries@) =~= entries_bytes(old(root_entries)@) + eb);
        } else if bytes_equal(dbytes, boot_name.as_slice()) {
            let mut e = DirEntry::file(name, cluster, size);
            let ghost eb = entries_bytes(e@);
            boot_entries.append(&mut e);
            assert(entries_bytes(boot_entries@) =~= entries_bytes(old(boot_entries)@) + eb);
        } else if bytes_equal(dbytes, limine_name.as_slice()) {
            let mut e = DirEntry::file(name, cluster, size);
            let ghost eb = entries_bytes(e@);
            limine_entries.append(&mut e);
            assert(entries_bytes(limine_entries@) =~= entries_bytes(old(limine_entries)@) + eb);
        } else {
            return Err(ImageError::UnsupportedPath(file.path.to_owned()));
        }
        Ok(())
    }

    /// Writes the entries of the root, `/boot` and `/boot/limine` directories.
    fn write_directories(
        &mut self,
        boot_cluster: u16,
        limine_cluster: u16,
        root_entries: &Vec<DirEntry>,
        boot_entries: &Vec<DirEntry>,
        limine_entries: &Vec<DirEntry>,
    ) -> (r: Result<(), ImageError>)
        requires
            old(self).wf(),
            2 <= boot_cluster < old(self).cluster_count() + 2,
            2 <= limine_cluster < old(self).cluster_count() + 2,
            32 * root_entries@.len() + 32 <= usize::MAX,
            32 * boot_entries@.len() + 32 <= usize::MAX,
            32 * limine_entries@.len() + 32 <= usize::MAX,
        ensures
            final(self).wf(),
            final(self).same_layout(old(self)),
            final(self).next_cluster == old(self).next_cluster,
            r is Ok <==> entries_fit(root_entries@.len() as int, 16384) && entries_fit(
                boot_entries@.len() as int,
                2048,
            ) && entries_fit(limine_entries@.len() as int, 2048),
            r is Err ==> r == Err::<(), ImageError>(ImageError::DirectoryFull),
            r is Ok ==> final(self).bytes@ == with_entries(
                with_entries(
                    with_entries(
                        old(self).bytes@,
                        old(self).root_dir_offset(),
                        entries_bytes(root_entries@),
                    ),
                    old(self).cluster_start(boot_cluster as int),
                    entries_bytes(boot_entries@),
                ),
                old(self).cluster_start(limine_cluster as int),
                entries_bytes(limine_entries@),
            ),
    {
        match self.write_root_dir(root_entries.as_slice()) {
            Ok(()) => {},
            Err(e) => {
                return Err(e);
            },
        }
        match self.write_cluster_dir(boot_cluster, boot_entries.as_slice()) {
            Ok(()) => {},
            Err(e) => {
                return Err(e);
            },
        }
        self.write_cluster_dir(limine_cluster, limine_entries.as_slice())
    }

    /// Places the files: a `/boot` and a `/boot/limine` directory first, then the
    /// content of each file in fresh clusters, then the entries of the three
    /// directories. A file whose path has no `/` or names another directory is
    /// refused, as is running out of clusters or of directory space.
    #[verifier::rlimit(100)]
    pub fn write_files(&mut self, files: &[ImageFile]) -> (r: Result<(), ImageError>)
        requires
            old(self).wf(),
            old(self).next_cluster + 2 <= 0xffff ==> files_fit(
                old(self).next_cluster + 2,
                old(self).cluster_count() + 2,
                files@,
            ),
            old(self).next_cluster + 2 > 0xffff ==> old(self).next_cluster == 0xffff || old(
                self,
            ).next_cluster + 1 <= old(self).cluster_count() + 2,
        ensures
            final(self).wf(),
            final(self).same_layout(old(self)),
            ({
                let n0 = old(self).next_cluster as int;
                let plan = place_files(files@, n0 + 2);
                let root = seq![boot_dir_entry(n0 as u16)] + plan.3;
                let boot = seq![
                    dot_entry(n0 as u16),
                    dotdot_entry(0),
                    limine_dir_entry((n0 + 1) as u16),
                ] + plan.4;
                let limine = seq![dot_entry((n0 + 1) as u16), dotdot_entry(n0 as u16)] + plan.5;
                let b1 = old(self).with_chain(old(self).bytes@, n0, 1, 1);
                &&& n0 + 2 > 0xffff ==> r == Err::<(), ImageError>(ImageError::OutOfClusters)
                &&& n0 + 2 <= 0xffff && plan.0 >= 0 ==> {
                    let path = files@[plan.0].path;
                    &&& plan.1 == kind_invalid_path() ==> (r matches Err(ImageError::InvalidPath(p))
                        && p@ == path@)
                    &&& plan.1 == kind_out_of_clusters() ==> r == Err::<(), ImageError>(
                        ImageError::OutOfClusters,
                    )
                    &&& plan.1 == kind_unsupported_path() ==> (r matches Err(
                        ImageError::UnsupportedPath(p),
                    ) && p@ == path@)
                }
                &&& n0 + 2 <= 0xffff && plan.0 < 0 ==> {
                    &&& r is Ok <==> entries_fit(root.len() as int, 16384) && entries_fit(
                        boot.len() as int,
                        2048,
                    ) && entries_fit(limine.len() as int, 2048)
                    &&& r is Err ==> r == Err::<(), ImageError>(ImageError::DirectoryFull)
                }
                &&& r is Ok ==> {
                    &&& final(self).next_cluster == plan.2
                    &&& final(self).bytes@ == with_entries(
                        with_entries(
                            with_entries(
                                store_files(
                                    old(self).fat_start as int,
                                    old(self).sectors_per_fat as int,
                                    old(self).data_start as int,
                                    b1,
                                    files@,
                                    n0 + 2,
                                ),
                                old(self).root_dir_offset(),
                                root,
                            ),
                            old(self).cluster_start(n0),
                            boot,
                        ),
                        old(self).cluster_start(n0 + 1),
                        limine,
                    )
                }
            }),
    {
        let ghost old_img = *self;
        let ghost n0 = self.next_cluster as int;
        let ghost plan = place_files(files@, n0 + 2);
        proof {
            if n0 + 2 <= 0xffff {
                lemma_place_grows(files@, n0 + 2);
            }
        }
        let boot_cluster = match self.allocate_directory_cluster(0) {
            Ok(c) => c,
            Err(e) => {
                return Err(e);
            },
        };
        let limine_cluster = match self.allocate_directory_cluster(boot_cluster) {
            Ok(c) => c,
            Err(e) => {
                return Err(e);
            },
        };
        let ghost b1 = self.bytes@;
        proof {
            reveal_strlit("BOOT");
            reveal_strlit("LIMINE");
            vstd::string::is_ascii_spec_bytes("BOOT");
            vstd::string::is_ascii_spec_bytes("LIMINE");
            assert("BOOT".spec_bytes() =~= seq![0x42u8, 0x4f, 0x4f, 0x54]);
            assert("LIMINE".spec_bytes() =~= seq![0x4cu8, 0x49, 0x4d, 0x49, 0x4e, 0x45]);
        }
        let mut root_entries: Vec<DirEntry> = Vec::new();
        root_entries.push(DirEntry::directory("BOOT", boot_cluster));
        let mut boot_entries: Vec<DirEntry> = Vec::new();
        boot_entries.push(DirEntry::dot(boot_cluster));
        boot_entries.push(DirEntry::dotdot(0));
        boot_entries.push(DirEntry::directory("LIMINE", limine_cluster));
        let mut limine_entries: Vec<DirEntry> = Vec::new();
        limine_entries.push(DirEntry::dot(limine_cluster));
        limine_entries.push(DirEntry::dotdot(boot_cluster));
        proof {
            assert(files@.take(0) =~= Seq::<ImageFile>::empty());
            assert(entries_bytes(root_entries@) =~= seq![boot_dir_entry(n0 as u16)]
                + place_files(files@.take(0), n0 + 2).3);
            assert(entries_bytes(boot_entries@) =~= seq![
                dot_entry(n0 as u16),
                dotdot_entry(0),
                limine_dir_entry((n0 + 1) as u16),
            ] + place_files(files@.take(0), n0 + 2).4);
            assert(entries_bytes(limine_entries@) =~= seq![
                dot_entry((n0 + 1) as u16),
                dotdot_entry(n0 as u16),
            ] + place_files(files@.take(0), n0 + 2).5);
        }
        let mut i: usize = 0;
        while i < files.len()
            invariant
                i <= files@.len(),
                self.wf(),
                self.same_layout(&old_img),
                old_img == *old(self),
                old_img.wf(),
                n0 == old_img.next_cluster,
                n0 + 2 <= 0xffff,
                boot_cluster == n0,
                limine_cluster == n0 + 1,
                plan == place_files(files@, n0 + 2),
                plan.2 <= old_img.cluster_count() + 2,
                place_files(files@.take(i as int), n0 + 2).0 < 0,
                self.next_cluster == place_files(files@.take(i as int), n0 + 2).2,
                entries_bytes(root_entries@) == seq![boot_dir_entry(n0 as u16)] + place_files(
                    files@.take(i as int),
                    n0 + 2,
                ).3,
                entries_bytes(boot_entries@) == seq![
                    dot_entry(n0 as u16),
                    dotdot_entry(0),
                    limine_dir_entry((n0 + 1) as u16),
                ] + place_files(files@.take(i as int), n0 + 2).4,
                entries_bytes(limine_entries@) == seq![
                    dot_entry((n0 + 1) as u16),
                    dotdot_entry(n0 as u16),
                ] + place_files(files@.take(i as int), n0 + 2).5,
                self.bytes@ == store_files(
                    old_img.fat_start as int,
                    old_img.sectors_per_fat as int,
                    old_img.data_start as int,
                    b1,
                    files@.take(i as int),
                    n0 + 2,
                ),
            decreases files@.len() - i,
        {
            let ghost pre = files@.take(i as int);
            let ghost post = files@.take(i as int + 1);
            let ghost before = *self;
            proof {
                lemma_unfold_step(
                    files@,
                    i as int,
                    n0 + 2,
                    old_img.fat_start as int,
                    old_img.sectors_per_fat as int,
                    old_img.data_start as int,
                    b1,
                );
                lemma_place_monotone(files@, i as int, n0 + 2);
                if place_files(post, n0 + 2).0 < 0 {
                    lemma_place_monotone(files@, i as int + 1, n0 + 2);
                } else {
                    lemma_place_prefix(files@, i + 1, n0 + 2);
                }
            }
            let r = self.place_file(&files[i], &mut root_entries, &mut boot_entries, &mut limine_entries);
            if r.is_err() {
                proof {
                    lemma_place_prefix(files@, i + 1, n0 + 2);
                }
                return r;
            }
            proof {
                assert(entries_bytes(root_entries@) =~= seq![boot_dir_entry(n0 as u16)]
                    + place_files(post, n0 + 2).3);
                assert(entries_bytes(boot_entries@) =~= seq![
                    dot_entry(n0 as u16),
                    dotdot_entry(0),
                    limine_dir_entry((n0 + 1) as u16),
                ] + place_files(post, n0 + 2).4);
                assert(entries_bytes(limine_entries@) =~= seq![
                    dot_entry((n0 + 1) as u16),
                    dotdot_entry(n0 as u16),
                ] + place_files(post, n0 + 2).5);
            }
            i = i + 1;
        }
        proof {
            assert(files@.take(files@.len() as int) =~= files@);
        }
        self.write_directories(boot_cluster, limine_cluster, &root_entries, &boot_entries, &limine_entries)
    }
}

/// Whether files placed from cluster `next` stay below `cluster_limit` with the
/// clusters they take, and their directory entries can be counted in bytes.
pub open spec fn files_fit(next: int, cluster_limit: int, files: Seq<ImageFile>) -> bool {
    let plan = place_files(files, next);
    &&& plan.2 <= cluster_limit
    &&& 32 * (plan.3.len() + 1) + 32 <= usize::MAX
    &&& 32 * (plan.4.len() + 3) + 32 <= usize::MAX
    &&& 32 * (plan.5.len() + 2) + 32 <= usize::MAX
}

/// Whether placing `files` from cluster `next` stays below `cluster_limit`; the
/// placement is tried without writing anything.
pub fn files_fit_below(next: u16, cluster_limit: usize, files: &[ImageFile]) -> (r: bool)
    ensures
        r == files_fit(next as int, cluster_limit as int, files@),
{
    let mut cursor: u64 = next as u64;
    let mut roots: usize = 0;
    let mut boots: usize = 0;
    let mut limines: usize = 0;
    let root_limit: usize = (usize::MAX - 32) / 32 - 1;
    let boot_limit: usize = (usize::MAX - 32) / 32 - 3;
    let limine_limit: usize = (usize::MAX - 32) / 32 - 2;
    let mut i: usize = 0;
    proof {
        assert(files@.take(0) =~= Seq::<ImageFile>::empty());
    }
    while i < files.len()
        invariant
            i <= files@.len(),
            root_limit == (usize::MAX - 32) / 32 - 1,
            boot_limit == (usize::MAX - 32) / 32 - 3,
            limine_limit == (usize::MAX - 32) / 32 - 2,
            place_files(files@.take(i as int), next as int).0 < 0,
            cursor == place_files(files@.take(i as int), next as int).2,
            cursor <= 0xffff,
            roots == place_files(files@.take(i as int), next as int).3.len(),
            boots == place_files(files@.take(i as int), next as int).4.len(),
            limines == place_files(files@.take(i as int), next as int).5.len(),
            roots <= root_limit,
            boots <= boot_limit,
            limines <= limine_limit,
        decreases files@.len() - i,
    {
        let ghost pre = files@.take(i as int);
        let ghost post = files@.take(i as int + 1);
        proof {
            assert(post.drop_last() =~= pre);
            assert(post.last() == files@[i as int]);
        }
        let file = &files[i];
        let (directory, name) = match split_path(file.path) {
            Ok(parts) => parts,
            Err(_) => {
                proof {
                    lemma_place_prefix(files@, i + 1, next as int);
                }
                return cursor <= cluster_limit as u64 && roots <= root_limit && boots <= boot_limit
                    && limines <= limine_limit;
            },
        };
        let len = file.data.len();
        let n = if len < 1 {
            1
        } else {
            len
        };
        let k = (n / 2048 + if n % 2048 != 0 {
            1
        } else {
            0
        }) as u64;
        assert(k == clusters_for(file.data@.len() as int));
        if cursor + k > 0xffff {
            proof {
                lemma_place_prefix(files@, i + 1, next as int);
            }
            return cursor <= cluster_limit as u64 && roots <= root_limit && boots <= boot_limit
                && limines <= limine_limit;
        }
        let entries = DirEntry::file(name, cursor as u16, len as u32);
        proof {
            vstd::utf8::encode_utf8_decode_utf8(name@);
        }
        let count = entries.len();
        assert(count == file_entries_spec(
            decode_utf8(name_part(file.path.spec_bytes(), last_slash(file.path.spec_bytes()))),
            cursor as u16,
            len as u32,
        ).len());
        let dbytes = directory.as_bytes();
        let root_name: [u8; 1] = [0x2f];
        let boot_name: [u8; 5] = [0x2f, 0x62, 0x6f, 0x6f, 0x74];
        let limine_name: [u8; 12] = [0x2f, 0x62, 0x6f, 0x6f, 0x74, 0x2f, 0x6c, 0x69, 0x6d, 0x69, 0x6e, 0x65];
        assert(root_name@ =~= dir_root());
        assert(boot_name@ =~= dir_boot());
        assert(limine_name@ =~= dir_limine());
        cursor = cursor + k;
        if bytes_equal(dbytes, root_name.as_slice()) {
            if count > root_limit - roots {
                proof {
                    lemma_place_monotone_lists(files@, i + 1, next as int);
                }
                return false;
            }
            roots = roots + count;
        } else if bytes_equal(dbytes, boot_name.as_slice()) {
            if count > boot_limit - boots {
                proof {
                    lemma_place_monotone_lists(files@, i + 1, next as int);
                }
                return false;
            }
            boots = boots + count;
        } else if bytes_equal(dbytes, limine_name.as_slice()) {
            if count > limine_limit - limines {
                proof {
                    lemma_place_monotone_lists(files@, i + 1, next as int);
                }
                return false;
            }
            limines = limines + count;
        } else {
            proof {
                lemma_place_prefix(files@, i + 1, next as int);
            }
            return cursor <= cluster_limit as u64 && roots <= root_limit && boots <= boot_limit
                && limines <= limine_limit;
        }
        i = i + 1;
    }
    proof {
        assert(files@.take(files@.len() as int) =~= files@);
    }
    cursor <= cluster_limit as u64
}

/// The directory lists of a placement without failure only grow with more files.
proof fn lemma_place_monotone_lists(files: Seq<ImageFile>, j: int, next: int)
    requires
        0 <= j <= files.len(),
        place_files(files.take(j), next).0 < 0,
    ensures
        place_files(files.take(j), next).3.len() <= place_files(files, next).3.len(),
        place_files(files.take(j), next).4.len() <= place_files(files, next).4.len(),
        place_files(files.take(j), next).5.len() <= place_files(files, next).5.len(),
    decreases files.len() - j,
{
    if j == files.len() {
        assert(files.take(j) =~= files);
    } else {
        assert(files.take(j + 1).drop_last() =~= files.take(j));
        if place_files(files.take(j + 1), next).0 < 0 {
            lemma_place_monotone_lists(files, j + 1, next);
        } else {
            lemma_place_prefix(files, j + 1, next);
        }
    }
}

/// Sectors per FAT of a fresh image of `size` bytes.
pub open spec fn fresh_fat_sectors(size: int) -> int {
    settled_fat_sectors(size / 512 - 2048)
}

/// First sector of the data area of a fresh image of `size` bytes.
pub open spec fn fresh_data_start(size: int) -> int {
    2049 + 2 * fresh_fat_sectors(size) + 32
}

/// Data clusters of a fresh image of `size` bytes.
pub open spec fn fresh_cluster_count(size: int) -> int {
    (size / 512 - fresh_data_start(size)) / 4
}

/// The bytes of a formatted but empty image of `size` bytes: zeros with the MBR,
/// the boot sector and the two reserved entries of both FATs.
pub open spec fn formatted_bytes(size: int) -> Seq<u8> {
    let spf = fresh_fat_sectors(size);
    let ps = size / 512 - 2048;
    let zeros = Seq::new(size as nat, |i: int| 0u8);
    let b = with_boot_sector(with_mbr(zeros, ps as u32), 1048576, spf as u16, ps as u32);
    let f00 = fat_entry_offset(2049, spf, 0, 0);
    let f10 = fat_entry_offset(2049, spf, 1, 0);
    let f01 = fat_entry_offset(2049, spf, 0, 1);
    let f11 = fat_entry_offset(2049, spf, 1, 1);
    b.update(f00, le16(0xfff8)[0]).update(f00 + 1, le16(0xfff8)[1]).update(f10, le16(0xfff8)[0]).update(
        f10 + 1,
        le16(0xfff8)[1],
    ).update(f01, le16(0xffff)[0]).update(f01 + 1, le16(0xffff)[1]).update(f11, le16(0xffff)[0]).update(
        f11 + 1,
        le16(0xffff)[1],
    )
}

/// The bytes of an image of `size` bytes holding `files`: the formatted image,
/// the `/boot` directory's cluster chained, the files' content stored from
/// cluster 4, and the entries of the three directories written.
pub open spec fn image_bytes(size: int, files: Seq<ImageFile>) -> Seq<u8> {
    let spf = fresh_fat_sectors(size);
    let ds = fresh_data_start(size);
    let plan = place_files(files, 4);
    let root = seq![boot_dir_entry(2)] + plan.3;
    let boot = seq![dot_entry(2), dotdot_entry(0), limine_dir_entry(3)] + plan.4;
    let limine = seq![dot_entry(3), dotdot_entry(2)] + plan.5;
    let b1 = chained(2049, spf, formatted_bytes(size), 2, 1, 1);
    with_entries(
        with_entries(
            with_entries(store_files(2049, spf, ds, b1, files, 4), (2049 + 2 * spf) * 512, root),
            cluster_offset_in(ds, 2),
            boot,
        ),
        cluster_offset_in(ds, 3),
        limine,
    )
}

/// Whether an image of `size` bytes holding `files` is built: the size is whole
/// sectors, every file is placed, and the three directories take their entries.
pub open spec fn image_builds(size: int, files: Seq<ImageFile>) -> bool {
    let plan = place_files(files, 4);
    let root = seq![boot_dir_entry(2)] + plan.3;
    let boot = seq![dot_entry(2), dotdot_entry(0), limine_dir_entry(3)] + plan.4;
    let limine = seq![dot_entry(3), dotdot_entry(2)] + plan.5;
    &&& size % 512 == 0
    &&& plan.0 < 0
    &&& entries_fit(root.len() as int, 16384)
    &&& entries_fit(boot.len() as int, 2048)
    &&& entries_fit(limine.len() as int, 2048)
}

/// A placement that fails says why: a path without `/`, clusters run out, or
/// another directory.
proof fn lemma_place_failure_kind(files: Seq<ImageFile>, next: int)
    ensures
        place_files(files, next).0 >= 0 ==> place_files(files, next).1 == kind_invalid_path()
            || place_files(files, next).1 == kind_out_of_clusters() || place_files(files, next).1
            == kind_unsupported_path(),
    decreases files.len(),
{
    if files.len() > 0 {
        lemma_place_failure_kind(files.drop_last(), next);
    }
}

/// Builds the bytes of a FAT16 disk image of `size` bytes holding `files`: an MBR,
/// the boot sector, the FATs, `/boot` and `/boot/limine`, and the files.
pub fn create(size: u64, files: &[ImageFile]) -> (r: Result<Vec<u8>, ImageError>)
    requires
        image_size_accepted(size as usize as int),
        (size as usize) % 512 == 0 ==> files_fit(
            4,
            fresh_cluster_count(size as usize as int) + 2,
            files@,
        ),
    ensures
        ({
            let sz = size as usize as int;
            let plan = place_files(files@, 4);
            let root = seq![boot_dir_entry(2)] + plan.3;
            let boot = seq![dot_entry(2), dotdot_entry(0), limine_dir_entry(3)] + plan.4;
            let limine = seq![dot_entry(3), dotdot_entry(2)] + plan.5;
            &&& sz % 512 != 0 ==> r is Err && r == Err::<Vec<u8>, ImageError>(
                ImageError::UnalignedSize,
            )
            &&& sz % 512 == 0 && plan.0 >= 0 ==> {
                let path = files@[plan.0].path;
                &&& plan.1 == kind_invalid_path() ==> (r matches Err(ImageError::InvalidPath(p))
                    && p@ == path@)
                &&& plan.1 == kind_out_of_clusters() ==> r == Err::<Vec<u8>, ImageError>(
                    ImageError::OutOfClusters,
                )
                &&& plan.1 == kind_unsupported_path() ==> (r matches Err(
                    ImageError::UnsupportedPath(p),
                ) && p@ == path@)
            }
            &&& sz % 512 == 0 && plan.0 < 0 ==> {
                &&& r is Ok <==> entries_fit(root.len() as int, 16384) && entries_fit(
                    boot.len() as int,
                    2048,
                ) && entries_fit(limine.len() as int, 2048)
                &&& r is Err ==> r == Err::<Vec<u8>, ImageError>(ImageError::DirectoryFull)
            }
            &&& r is Ok <==> image_builds(sz, files@)
            &&& r matches Ok(bytes) ==> bytes@ == image_bytes(sz, files@)
        }),
{
    proof {
        lemma_place_failure_kind(files@, 4);
    }
    let mut image = match Fat16Image::new(size as usize) {
        Ok(img) => img,
        Err(e) => {
            return Err(e);
        },
    };
    image.write_mbr();
    image.write_boot_sector();
    image.init_fats();
    match image.write_files(files) {
        Ok(()) => {},
        Err(e) => {
            return Err(e);
        },
    }
    Ok(image.bytes)
}

} // verus!
