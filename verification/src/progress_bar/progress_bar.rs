use vstd::prelude::*;
use vstd::string::StringSliceAdditionalSpecFns;

use crate::xtask::image::names::prefix;
use crate::string::string::String;
use crate::text::number::{decimal, format_decimal};

verus! {

/// `n` copies of `b`.
pub open spec fn repeat(b: u8, n: nat) -> Seq<u8> {
    Seq::new(n, |i: int| b)
}

/// Cells of the bar that are filled.
pub open spec fn filled_cells(all: int, progress: int, width: int) -> int {
    progress * width / all
}

/// The bar: a `|` for each filled cell, a space for each empty one, at most 64 of
/// them in all.
pub open spec fn bar_cells(all: int, progress: int, width: int) -> Seq<u8> {
    let filled = filled_cells(all, progress, width);
    prefix(repeat(0x7c, filled as nat) + repeat(0x20, (width - filled) as nat), 64)
}

/// The progress line: the bar in brackets, the percentage, and a carriage return
/// so that the next line overwrites it.
pub open spec fn progress_line(all: int, progress: int, width: int) -> Seq<u8> {
    "[".spec_bytes() + bar_cells(all, progress, width) + "] ".spec_bytes() + decimal(
        (progress * 100 / all) as nat,
    ) + "%\r".spec_bytes()
}

/// Cutting twice at 64 bytes is cutting once.
proof fn lemma_prefix_append(a: Seq<u8>, b: Seq<u8>)
    ensures
        prefix(prefix(a, 64) + b, 64) == prefix(a + b, 64),
{
    assert(prefix(prefix(a, 64) + b, 64) =~= prefix(a + b, 64));
}

/// The line that shows how far `progress` of `all` has come on a bar of `width`
/// cells.
pub fn progress_bar(all: usize, progress: usize, width: usize) -> (line: Vec<u8>)
    requires
        all != 0,
        progress * width <= usize::MAX,
        progress * 100 <= usize::MAX,
        filled_cells(all as int, progress as int, width as int) <= width,
    ensures
        line@ == progress_line(all as int, progress as int, width as int),
{
    let mut bar = String::new();
    let filled = progress * width / all;
    let mut i: usize = 0;
    while i < filled
        invariant
            i <= filled,
            bar.wf(),
            bar@ == prefix(repeat(0x7c, i as nat), 64),
        decreases filled - i,
    {
        proof {
            reveal_strlit("|");
            vstd::string::is_ascii_spec_bytes("|");
            assert("|".spec_bytes() =~= seq![0x7cu8]);
            lemma_prefix_append(repeat(0x7c, i as nat), seq![0x7cu8]);
            assert(repeat(0x7c, i as nat) + seq![0x7cu8] =~= repeat(0x7c, (i + 1) as nat));
        }
        bar.push_str("|");
        i = i + 1;
    }
    let empty = width - filled;
    let mut j: usize = 0;
    assert(repeat(0x7c, filled as nat) + repeat(0x20, 0) =~= repeat(0x7c, filled as nat));
    while j < empty
        invariant
            j <= empty,
            bar.wf(),
            bar@ == prefix(repeat(0x7c, filled as nat) + repeat(0x20, j as nat), 64),
        decreases empty - j,
    {
        proof {
            reveal_strlit(" ");
            vstd::string::is_ascii_spec_bytes(" ");
            assert(" ".spec_bytes() =~= seq![0x20u8]);
            lemma_prefix_append(repeat(0x7c, filled as nat) + repeat(0x20, j as nat), seq![0x20u8]);
            assert(repeat(0x7c, filled as nat) + repeat(0x20, j as nat) + seq![0x20u8]
                =~= repeat(0x7c, filled as nat) + repeat(0x20, (j + 1) as nat));
        }
        bar.push_str(" ");
        j = j + 1;
    }
    let mut line: Vec<u8> = Vec::new();
    line.extend_from_slice("[".as_bytes());
    line.extend_from_slice(bar.as_bytes());
    line.extend_from_slice("] ".as_bytes());
    line.extend_from_slice(format_decimal((progress * 100 / all) as u64).as_slice());
    line.extend_from_slice("%\r".as_bytes());
    assert(line@ =~= progress_line(all as int, progress as int, width as int));
    line
}

} // verus!
