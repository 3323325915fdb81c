use vstd::prelude::*;

verus! {

/// Why a disk image could not be built.
#[derive(Debug)]
pub enum ImageError {
    /// The image size is not a whole number of sectors.
    UnalignedSize,
    /// The cluster numbers of the FAT ran out.
    OutOfClusters,
    /// A directory's entries do not fit the space it has.
    DirectoryFull,
    /// A file is to be placed in a directory the image does not have.
    UnsupportedPath(String),
    /// A file path has no `/`.
    InvalidPath(String),
}

} // verus!
