use vstd::prelude::*;
use vstd::string::StringSliceAdditionalSpecFns;

use crate::xtask::image::error::ImageError;

verus! {

broadcast use vstd::utf8::encode_utf8_valid_utf8;

/// The byte of `/`.
pub const SLASH: u8 = 0x2f;

/// The index of the last `/` in `s`, or -1 where there is none.
pub open spec fn last_slash(s: Seq<u8>) -> int
    decreases s.len(),
{
    if s.len() == 0 {
        -1
    } else if s.last() == SLASH {
        s.len() - 1
    } else {
        last_slash(s.drop_last())
    }
}

/// The directory part of a path whose last `/` is at `i`: `/` where that is the
/// first byte, else everything before it.
pub open spec fn dir_part(s: Seq<u8>, i: int) -> Seq<u8> {
    if i == 0 {
        seq![SLASH]
    } else {
        s.subrange(0, i)
    }
}

/// The file name part of a path whose last `/` is at `i`: everything after it.
pub open spec fn name_part(s: Seq<u8>, i: int) -> Seq<u8> {
    s.subrange(i + 1, s.len() as int)
}

/// Index of the last `/` in `bytes`.
fn find_last_slash(bytes: &[u8]) -> (r: Option<usize>)
    ensures
        match r {
            Some(i) => i == last_slash(bytes@) && i < bytes@.len() && bytes@[i as int] == SLASH,
            None => last_slash(bytes@) == -1,
        },
        last_slash(bytes@) >= -1,
{
    let mut i = bytes.len();
    assert(bytes@.take(i as int) =~= bytes@);
    while i > 0
        invariant
            i <= bytes@.len(),
            last_slash(bytes@) == last_slash(bytes@.take(i as int)),
        decreases i,
    {
        assert(bytes@.take(i as int).drop_last() =~= bytes@.take(i - 1));
        if bytes[i - 1] == SLASH {
            return Some(i - 1);
        }
        i = i - 1;
    }
    None
}

/// Splits an image path at its last `/` into the directory and the file name.
/// A path without `/` is refused.
pub fn split_path(path: &str) -> (r: Result<(&str, &str), ImageError>)
    ensures
        match r {
            Ok((dir, name)) => {
                let i = last_slash(path.spec_bytes());
                &&& i >= 0
                &&& dir.spec_bytes() == dir_part(path.spec_bytes(), i)
                &&& name.spec_bytes() == name_part(path.spec_bytes(), i)
            },
            Err(e) => last_slash(path.spec_bytes()) == -1 && (e matches ImageError::InvalidPath(p)
                && p@ == path@),
        },
{
    let bytes = path.as_bytes();
    let ghost s = bytes@;
    proof {
        assert(bytes@.take(bytes@.len() as int) =~= bytes@);
    }
    match find_last_slash(bytes) {
        None => Err(ImageError::InvalidPath(path.to_owned())),
        Some(index) => {
            proof {
                vstd::utf8::is_char_boundary_iff_not_is_continuation_byte(s, index as int);
            }
            let (before, rest) = path.split_at(index);
            proof {
                vstd::utf8::valid_utf8_split(s, index as int);
                let t = rest.spec_bytes();
                assert(t =~= s.subrange(index as int, s.len() as int));
                assert(t[0] == SLASH);
                reveal_with_fuel(vstd::utf8::is_char_boundary, 2);
                assert(vstd::utf8::is_char_boundary(t, 1));
            }
            let (_, name) = rest.split_at(1);
            let directory = if index == 0 {
                proof {
                    reveal_strlit("/");
                    vstd::string::is_ascii_spec_bytes("/");
                    assert("/".spec_bytes() =~= seq![SLASH]);
                }
                "/"
            } else {
                before
            };
            proof {
                assert(name.spec_bytes() =~= name_part(s, index as int));
            }
            Ok((directory, name))
        },
    }
}

} // verus!
