use vstd::prelude::*;
use vstd::string::StringSliceAdditionalSpecFns;

verus! {

/// The byte of `.`, which separates a file name's base from its extension.
pub const DOT: u8 = 0x2e;

/// The byte of a space, which pads the fields of a short name.
pub const SPACE: u8 = 0x20;

/// The byte of `_`, which pads the base of a generated short name.
pub const UNDERSCORE: u8 = 0x5f;

/// The byte of `~`, the marker of a generated short name.
pub const TILDE: u8 = 0x7e;

/// The byte of `1`, the numeric tail of a generated short name.
pub const DIGIT_ONE: u8 = 0x31;

/// An ASCII digit or letter.
pub open spec fn is_alnum(b: u8) -> bool {
    (0x30 <= b <= 0x39) || (0x41 <= b <= 0x5a) || (0x61 <= b <= 0x7a)
}

/// A byte that may stand in an 8.3 short name as it is: an ASCII digit or letter,
/// `_`, `$`, `~` or `-`.
pub open spec fn is_short_byte(b: u8) -> bool {
    is_alnum(b) || b == 0x5f || b == 0x24 || b == 0x7e || b == 0x2d
}

/// ASCII upper case of a byte; every other byte is left as it is.
pub open spec fn upper(b: u8) -> u8 {
    if 0x61 <= b <= 0x7a {
        (b - 32) as u8
    } else {
        b
    }
}

/// At most the first `n` elements of `s`.
pub open spec fn prefix(s: Seq<u8>, n: int) -> Seq<u8> {
    if s.len() <= n {
        s
    } else {
        s.take(n)
    }
}

/// Every byte of `s` in ASCII upper case.
pub open spec fn upper_all(s: Seq<u8>) -> Seq<u8> {
    s.map_values(|b: u8| upper(b))
}

/// The first `n` positions of `s`, filled up with `fill` where `s` is shorter.
pub open spec fn pad_to(s: Seq<u8>, n: nat, fill: u8) -> Seq<u8> {
    Seq::new(n, |i: int| if i < s.len() { s[i] } else { fill })
}

/// The bytes of `s` that are ASCII digits or letters, in their order.
pub open spec fn keep_alnum(s: Seq<u8>) -> Seq<u8>
    decreases s.len(),
{
    if s.len() == 0 {
        Seq::empty()
    } else if is_alnum(s.last()) {
        keep_alnum(s.drop_last()).push(s.last())
    } else {
        keep_alnum(s.drop_last())
    }
}

/// The index of the first `.` in `s`, or `s.len()` where there is none.
pub open spec fn first_dot(s: Seq<u8>) -> int
    decreases s.len(),
{
    if s.len() == 0 {
        0
    } else {
        let d = first_dot(s.drop_last());
        if d < s.len() - 1 {
            d
        } else if s.last() == DOT {
            s.len() - 1
        } else {
            s.len() as int
        }
    }
}

/// The base of a file name: what stands before its first `.`.
pub open spec fn name_base(s: Seq<u8>) -> Seq<u8> {
    s.subrange(0, first_dot(s))
}

/// The extension of a file name: what stands after its first `.`, empty where
/// there is no `.`.
pub open spec fn name_ext(s: Seq<u8>) -> Seq<u8> {
    if first_dot(s) < s.len() {
        s.subrange(first_dot(s) + 1, s.len() as int)
    } else {
        Seq::empty()
    }
}

/// Whether a name can be stored as an 8.3 short name unchanged: a base of one to
/// eight bytes, an extension of at most three, and only short-name bytes in both.
pub open spec fn fits_short_name(s: Seq<u8>) -> bool {
    &&& 0 < name_base(s).len() <= 8
    &&& name_ext(s).len() <= 3
    &&& forall|i: int| 0 <= i < name_base(s).len() ==> is_short_byte(#[trigger] name_base(s)[i])
    &&& forall|i: int| 0 <= i < name_ext(s).len() ==> is_short_byte(#[trigger] name_ext(s)[i])
}

/// The eleven bytes of the 8.3 short name of the file name `s`. A name that fits
/// is upper-cased and padded with spaces; any other gets the first six letters and
/// digits of its base (padded with `_`), then `~1`, then the first three letters and
/// digits of its extension.
pub open spec fn short_name_spec(s: Seq<u8>) -> Seq<u8> {
    if fits_short_name(s) {
        pad_to(upper_all(name_base(s)), 8, SPACE) + pad_to(upper_all(name_ext(s)), 3, SPACE)
    } else {
        pad_to(upper_all(prefix(keep_alnum(name_base(s)), 6)), 6, UNDERSCORE) + seq![TILDE, DIGIT_ONE]
            + pad_to(upper_all(prefix(keep_alnum(name_ext(s)), 3)), 3, SPACE)
    }
}

/// The first `.` of a name without `.` is past its end.
proof fn lemma_first_dot_none(s: Seq<u8>)
    requires
        forall|i: int| 0 <= i < s.len() ==> s[i] != DOT,
    ensures
        first_dot(s) == s.len(),
    decreases s.len(),
{
    if s.len() > 0 {
        lemma_first_dot_none(s.drop_last());
    }
}

/// The first `.` of two names one after the other: that of the first where it
/// has one, else the length of the first plus that of the second.
proof fn lemma_first_dot_append(s: Seq<u8>, t: Seq<u8>)
    requires
        first_dot(s) == s.len(),
    ensures
        first_dot(s + t) == s.len() + first_dot(t),
    decreases t.len(),
{
    if t.len() == 0 {
        assert(s + t =~= s);
    } else {
        assert((s + t).drop_last() =~= s + t.drop_last());
        lemma_first_dot_append(s, t.drop_last());
        lemma_first_dot_bound(t.drop_last());
    }
}

/// The first `.` lies within the name or just past its end.
proof fn lemma_first_dot_bound(s: Seq<u8>)
    ensures
        0 <= first_dot(s) <= s.len(),
    decreases s.len(),
{
    if s.len() > 0 {
        lemma_first_dot_bound(s.drop_last());
    }
}

/// A name whose base is one to eight short-name bytes and whose extension, after a
/// `.`, is at most three keeps its 8.3 form: it needs no long name, and its short
/// name is the base upper-cased and padded with spaces to eight bytes, then the
/// extension upper-cased and padded to three.
pub proof fn lemma_short_name_keeps_8_3(base: Seq<u8>, ext: Seq<u8>)
    requires
        1 <= base.len() <= 8,
        ext.len() <= 3,
        forall|i: int| 0 <= i < base.len() ==> is_short_byte(#[trigger] base[i]),
        forall|i: int| 0 <= i < ext.len() ==> is_short_byte(#[trigger] ext[i]),
    ensures
        ({
            let s = base + seq![DOT] + ext;
            &&& fits_short_name(s)
            &&& short_name_spec(s) == Seq::new(
                11,
                |i: int|
                    if i < base.len() {
                        if 0x61 <= base[i] <= 0x7a {
                            (base[i] - 32) as u8
                        } else {
                            base[i]
                        }
                    } else if i < 8 {
                        0x20u8
                    } else if i - 8 < ext.len() {
                        if 0x61 <= ext[i - 8] <= 0x7a {
                            (ext[i - 8] - 32) as u8
                        } else {
                            ext[i - 8]
                        }
                    } else {
                        0x20u8
                    },
            )
        }),
{
    let s = base + seq![DOT] + ext;
    lemma_first_dot_none(base);
    assert(s =~= base + (seq![DOT] + ext));
    lemma_first_dot_append(base, seq![DOT] + ext);
    assert((seq![DOT] + ext).take(0) =~= Seq::<u8>::empty());
    lemma_first_dot_prefix(seq![DOT] + ext, 0);
    assert(first_dot(s) == base.len());
    assert(name_base(s) =~= base);
    assert(name_ext(s) =~= ext);
    let expected = Seq::new(
        11,
        |i: int|
            if i < base.len() {
                if 0x61 <= base[i] <= 0x7a {
                    (base[i] - 32) as u8
                } else {
                    base[i]
                }
            } else if i < 8 {
                0x20u8
            } else if i - 8 < ext.len() {
                if 0x61 <= ext[i - 8] <= 0x7a {
                    (ext[i - 8] - 32) as u8
                } else {
                    ext[i - 8]
                }
            } else {
                0x20u8
            },
    );
    assert(short_name_spec(s) =~= expected);
}

/// What is kept of a name's letters and digits is letters and digits only.
proof fn lemma_keep_alnum_is_alnum(s: Seq<u8>)
    ensures
        forall|i: int| 0 <= i < keep_alnum(s).len() ==> is_alnum(#[trigger] keep_alnum(s)[i]),
    decreases s.len(),
{
    if s.len() > 0 {
        lemma_keep_alnum_is_alnum(s.drop_last());
        let k = keep_alnum(s.drop_last());
        if is_alnum(s.last()) {
            assert forall|i: int| 0 <= i < keep_alnum(s).len() implies is_alnum(
                #[trigger] keep_alnum(s)[i],
            ) by {
                if i < k.len() {
                    assert(keep_alnum(s)[i] == k[i]);
                }
            }
        }
    }
}

/// Every short name is a valid 8.3 name: eleven bytes, each a space or an
/// upper-case short-name byte; and a name that needs a long name gets the `~1`
/// tail after at most six bytes of its base.
pub proof fn lemma_short_name_is_valid(s: Seq<u8>)
    ensures
        short_name_spec(s).len() == 11,
        forall|i: int|
            0 <= i < 11 ==> {
                let c = #[trigger] short_name_spec(s)[i];
                c == 0x20 || (is_short_byte(c) && !(0x61 <= c <= 0x7a))
            },
        !fits_short_name(s) ==> short_name_spec(s)[6] == 0x7e && short_name_spec(s)[7] == 0x31,
{
    lemma_keep_alnum_is_alnum(name_base(s));
    lemma_keep_alnum_is_alnum(name_ext(s));
    let r = short_name_spec(s);
    if fits_short_name(s) {
        assert forall|i: int| 0 <= i < 11 implies {
            let c = #[trigger] r[i];
            c == 0x20 || (is_short_byte(c) && !(0x61 <= c <= 0x7a))
        } by {
            if i < 8 && i < name_base(s).len() {
                assert(is_short_byte(name_base(s)[i]));
            } else if i >= 8 && i - 8 < name_ext(s).len() {
                assert(is_short_byte(name_ext(s)[i - 8]));
            }
        }
    } else {
        let kb = keep_alnum(name_base(s));
        let ke = keep_alnum(name_ext(s));
        assert forall|i: int| 0 <= i < 11 implies {
            let c = #[trigger] r[i];
            c == 0x20 || (is_short_byte(c) && !(0x61 <= c <= 0x7a))
        } by {
            if i < 6 && i < prefix(kb, 6).len() {
                assert(prefix(kb, 6)[i] == kb[i]);
                assert(is_alnum(kb[i]));
            } else if i >= 8 && i - 8 < prefix(ke, 3).len() {
                assert(prefix(ke, 3)[i - 8] == ke[i - 8]);
                assert(is_alnum(ke[i - 8]));
            }
        }
    }
}

/// Whether `b` is an ASCII digit or letter.
pub fn is_ascii_alphanumeric(b: u8) -> (r: bool)
    ensures
        r == is_alnum(b),
{
    (0x30 <= b && b <= 0x39) || (0x41 <= b && b <= 0x5a) || (0x61 <= b && b <= 0x7a)
}

/// Whether `byte` may stand in a short name as it is.
pub fn is_short_name_byte(byte: u8) -> (r: bool)
    ensures
        r == is_short_byte(byte),
{
    is_ascii_alphanumeric(byte) || byte == 0x5f || byte == 0x24 || byte == 0x7e || byte == 0x2d
}

/// ASCII upper case of `b`.
pub fn to_ascii_uppercase(b: u8) -> (r: u8)
    ensures
        r == upper(b),
{
    if 0x61 <= b && b <= 0x7a {
        b - 32
    } else {
        b
    }
}

/// The index of the first `.` in `bytes`, or its length where there is none.
pub fn first_dot_index(bytes: &[u8]) -> (r: usize)
    ensures
        r == first_dot(bytes@),
        r <= bytes@.len(),
        r < bytes@.len() ==> bytes@[r as int] == DOT,
        forall|j: int| 0 <= j < r ==> bytes@[j] != DOT,
{
    let mut i: usize = 0;
    while i < bytes.len()
        invariant
            i <= bytes@.len(),
            first_dot(bytes@.take(i as int)) == i,
            forall|j: int| 0 <= j < i ==> bytes@[j] != DOT,
        decreases bytes@.len() - i,
    {
        assert(bytes@.take(i as int + 1).drop_last() =~= bytes@.take(i as int));
        if bytes[i] == DOT {
            proof {
                lemma_first_dot_prefix(bytes@, i as int);
            }
            return i;
        }
        i = i + 1;
    }
    assert(bytes@.take(i as int) =~= bytes@);
    i
}

/// Once a prefix of `s` holds a `.` at its last position and none before, that
/// position is the first `.` of `s`.
proof fn lemma_first_dot_prefix(s: Seq<u8>, i: int)
    requires
        0 <= i < s.len(),
        s[i] == DOT,
        first_dot(s.take(i)) == i,
    ensures
        first_dot(s) == i,
    decreases s.len(),
{
    assert(s.take(i + 1).drop_last() =~= s.take(i));
    assert(first_dot(s.take(i + 1)) == i);
    lemma_first_dot_extend(s, i + 1);
}

/// A first `.` found in a prefix stays the first `.` of the whole sequence.
proof fn lemma_first_dot_extend(s: Seq<u8>, k: int)
    requires
        0 <= k <= s.len(),
        first_dot(s.take(k)) < k,
    ensures
        first_dot(s) == first_dot(s.take(k)),
    decreases s.len() - k,
{
    if k == s.len() {
        assert(s.take(k) =~= s);
    } else {
        assert(s.take(k + 1).drop_last() =~= s.take(k));
        assert(first_dot(s.take(k + 1)) == first_dot(s.take(k)));
        lemma_first_dot_extend(s, k + 1);
    }
}

/// Whether every byte of `bytes[start..end]` may stand in a short name.
fn all_short_name_bytes(bytes: &[u8], start: usize, end: usize) -> (r: bool)
    requires
        start <= end <= bytes@.len(),
    ensures
        r == (forall|i: int| start <= i < end ==> is_short_byte(#[trigger] bytes@[i])),
{
    let mut i = start;
    while i < end
        invariant
            start <= i <= end <= bytes@.len(),
            forall|j: int| start <= j < i ==> is_short_byte(#[trigger] bytes@[j]),
        decreases end - i,
    {
        if !is_short_name_byte(bytes[i]) {
            return false;
        }
        i = i + 1;
    }
    true
}

/// The smaller of two integers.
pub open spec fn min_int(a: int, b: int) -> int {
    if a < b {
        a
    } else {
        b
    }
}

/// Copies the letters and digits of `bytes[start..end]`, upper-cased, into
/// `short[at..at + limit]` until `limit` of them have been copied; returns how many
/// were copied.
fn copy_alnum_upper(
    bytes: &[u8],
    start: usize,
    end: usize,
    short: &mut [u8; 11],
    at: usize,
    limit: usize,
) -> (n: usize)
    requires
        start <= end <= bytes@.len(),
        at + limit <= 11,
    ensures
        n == min_int(limit as int, keep_alnum(bytes@.subrange(start as int, end as int)).len() as int),
        forall|j: int|
            0 <= j < n ==> final(short)@[at + j] == upper(
                #[trigger] keep_alnum(bytes@.subrange(start as int, end as int))[j],
            ),
        forall|j: int| 0 <= j < 11 && !(at <= j < at + n) ==> final(short)@[j] == old(short)@[j],
        final(short)@.len() == 11,
{
    let ghost src = bytes@.subrange(start as int, end as int);
    let mut n: usize = 0;
    let mut i = start;
    assert(src.take(0) =~= Seq::<u8>::empty());
    while i < end
        invariant
            start <= i <= end <= bytes@.len(),
            at + limit <= 11,
            src == bytes@.subrange(start as int, end as int),
            short@.len() == 11,
            n == min_int(limit as int, keep_alnum(src.take(i - start)).len() as int),
            forall|j: int|
                0 <= j < n ==> short@[at + j] == upper(#[trigger] keep_alnum(src.take(i - start))[j]),
            forall|j: int| 0 <= j < 11 && !(at <= j < at + n) ==> short@[j] == old(short)@[j],
        decreases end - i,
    {
        let ghost k: int = i - start;
        let ghost prev = keep_alnum(src.take(k));
        assert(src.take(k + 1).drop_last() =~= src.take(k));
        assert(src.take(k + 1).last() == bytes@[i as int]);
        let b = bytes[i];
        let ghost next = keep_alnum(src.take(k + 1));
        proof {
            if is_alnum(b) {
                assert(next == prev.push(b));
            } else {
                assert(next == prev);
            }
        }
        if n < limit && is_ascii_alphanumeric(b) {
            short[at + n] = to_ascii_uppercase(b);
            n = n + 1;
        }
        i = i + 1;
        assert forall|j: int| 0 <= j < n implies short@[at + j] == upper(
            #[trigger] keep_alnum(src.take(i - start))[j],
        ) by {
            assert(src.take(i - start) == src.take(k + 1));
            if j < prev.len() {
                assert(next[j] == prev[j]);
            }
        }
    }
    assert(src.take(end - start) =~= src);
    n
}

/// The 8.3 short name of a file name, and whether the name needs long-name
/// entries besides it (it does exactly when it does not fit a short name as it is).
pub fn short_name(name: &str) -> (r: ([u8; 11], bool))
    ensures
        r.0@ == short_name_spec(name.spec_bytes()),
        r.1 == !fits_short_name(name.spec_bytes()),
{
    let bytes = name.as_bytes();
    let ghost s = bytes@;
    let len = bytes.len();
    let dot = first_dot_index(bytes);
    let base_len = dot;
    let ext_start = if dot < len {
        dot + 1
    } else {
        len
    };
    let ext_len = len - ext_start;
    proof {
        assert(name_base(s) =~= s.subrange(0, base_len as int));
        assert(name_ext(s) =~= s.subrange(ext_start as int, s.len() as int));
    }
    let valid = base_len <= 8 && ext_len <= 3 && base_len > 0 && all_short_name_bytes(
        bytes,
        0,
        base_len,
    ) && all_short_name_bytes(bytes, ext_start, len);
    proof {
        if valid {
            assert forall|i: int| 0 <= i < name_base(s).len() implies is_short_byte(
                #[trigger] name_base(s)[i],
            ) by {
                assert(name_base(s)[i] == s[i]);
            }
            assert forall|i: int| 0 <= i < name_ext(s).len() implies is_short_byte(
                #[trigger] name_ext(s)[i],
            ) by {
                assert(name_ext(s)[i] == s[ext_start + i]);
            }
        }
        if fits_short_name(s) {
            assert forall|i: int| 0 <= i < base_len implies is_short_byte(#[trigger] s[i]) by {
                assert(name_base(s)[i] == s[i]);
            }
            assert forall|i: int| ext_start <= i < s.len() implies is_short_byte(
                #[trigger] s[i],
            ) by {
                assert(name_ext(s)[i - ext_start] == s[i]);
            }
        }
    }
    let mut short = [0x20u8; 11];
    if valid {
        let mut i: usize = 0;
        while i < base_len
            invariant
                i <= base_len <= 8,
                base_len <= s.len(),
                s == bytes@,
                short@.len() == 11,
                forall|j: int| 0 <= j < i ==> short@[j] == upper(#[trigger] s[j]),
                forall|j: int| i <= j < 11 ==> short@[j] == SPACE,
            decreases base_len - i,
        {
            short[i] = to_ascii_uppercase(bytes[i]);
            i = i + 1;
        }
        let mut j: usize = 0;
        while j < ext_len
            invariant
                j <= ext_len <= 3,
                base_len <= 8,
                ext_start + ext_len == len,
                len == s.len(),
                s == bytes@,
                short@.len() == 11,
                forall|k: int| 0 <= k < base_len ==> short@[k] == upper(#[trigger] s[k]),
                forall|k: int| base_len <= k < 8 ==> short@[k] == SPACE,
                forall|k: int| 0 <= k < j ==> short@[8 + k] == upper(#[trigger] s[ext_start + k]),
                forall|k: int| 8 + j <= k < 11 ==> short@[k] == SPACE,
            decreases ext_len - j,
        {
            short[8 + j] = to_ascii_uppercase(bytes[ext_start + j]);
            j = j + 1;
        }
        proof {
            let spec = short_name_spec(s);
            assert forall|i: int| 0 <= i < 11 implies short@[i] == spec[i] by {
                if i < 8 {
                    if i < base_len {
                        assert(name_base(s)[i] == s[i]);
                    }
                } else {
                    if i - 8 < ext_len {
                        assert(name_ext(s)[i - 8] == s[ext_start + (i - 8)]);
                    }
                }
            }
            assert(short@ =~= spec);
        }
        return (short, false);
    }
    let n = copy_alnum_upper(bytes, 0, base_len, &mut short, 0, 6);
    let mut k = n;
    while k < 6
        invariant
            n <= k <= 6,
            short@.len() == 11,
            forall|j: int|
                0 <= j < n ==> short@[j] == upper(
                    #[trigger] keep_alnum(s.subrange(0, base_len as int))[j],
                ),
            forall|j: int| n <= j < k ==> short@[j] == UNDERSCORE,
            forall|j: int| 6 <= j < 11 ==> short@[j] == SPACE,
        decreases 6 - k,
    {
        short[k] = UNDERSCORE;
        k = k + 1;
    }
    short[6] = TILDE;
    short[7] = DIGIT_ONE;
    let m = copy_alnum_upper(bytes, ext_start, len, &mut short, 8, 3);
    proof {
        let c = keep_alnum(name_base(s));
        let e = keep_alnum(name_ext(s));
        let spec = short_name_spec(s);
        assert(c == keep_alnum(bytes@.subrange(0, base_len as int)));
        assert(e == keep_alnum(bytes@.subrange(ext_start as int, len as int)));
        assert(n == min_int(6, c.len() as int));
        assert(m == min_int(3, e.len() as int));
        assert(!fits_short_name(s));
        assert forall|i: int| 0 <= i < 11 implies short@[i] == spec[i] by {
            if i < 6 {
                if i < n {
                    assert(prefix(c, 6)[i] == c[i]);
                }
            } else if i >= 8 {
                if i - 8 < m {
                    assert(prefix(e, 3)[i - 8] == e[i - 8]);
                }
            }
        }
        assert(short@ =~= spec);
    }
    (short, true)
}

/// Folds one byte into the short-name checksum: rotate right by one, then add.
pub open spec fn checksum_step(sum: u8, byte: u8) -> u8 {
    ((((sum & 1) << 7u8) as int + (sum >> 1u8) as int + byte as int) % 256) as u8
}

/// The long-name checksum of a short name's bytes.
pub open spec fn checksum_of(s: Seq<u8>) -> u8
    decreases s.len(),
{
    if s.len() == 0 {
        0
    } else {
        checksum_step(checksum_of(s.drop_last()), s.last())
    }
}

/// The checksum that ties long-name entries to the short name they belong to.
pub fn short_name_checksum(short_name: &[u8; 11]) -> (sum: u8)
    ensures
        sum == checksum_of(short_name@),
{
    let mut sum: u8 = 0;
    let mut i: usize = 0;
    while i < 11
        invariant
            i <= 11,
            short_name@.len() == 11,
            sum == checksum_of(short_name@.take(i as int)),
        decreases 11 - i,
    {
        assert(short_name@.take(i as int + 1).drop_last() =~= short_name@.take(i as int));
        let byte = short_name[i];
        sum = ((sum & 1) << 7u8).wrapping_add(sum >> 1u8).wrapping_add(byte);
        i = i + 1;
    }
    assert(short_name@.take(11) =~= short_name@);
    sum
}

} // verus!
