//! Names of chunk files.
//!
//! A chunk file is named after the global offset at which the chunk starts:
//! `r-00_000_000_000_001_200_000.wal`.

use crate::chunk::chunk_id::ChunkId;
use vstd::prelude::*;

verus! {

/// The length of the part of a chunk file name between `r-` and `.wal`.
pub const PADDED_LEN: usize = 26;

/// The name of a chunk's file.
pub open spec fn file_name(chunk_id: ChunkId) -> Seq<char> {
    "r-"@ + crate::num::padded_u64(chunk_id.0) + ".wal"@
}

/// The byte is an ASCII digit.
pub open spec fn is_digit(b: u8) -> bool {
    48 <= b <= 57
}

/// The name ends in `.wal`.
pub open spec fn has_suffix(name: Seq<u8>) -> bool {
    name.len() >= 4 && name.skip(name.len() - 4) == seq![46u8, 119u8, 97u8, 108u8]
}

/// The name, its last four bytes left out, begins with `r-`.
pub open spec fn has_prefix(name: Seq<u8>) -> bool {
    name.len() >= 6 && name.take(2) == seq![114u8, 45u8]
}

/// The part between `r-` and `.wal`.
pub open spec fn middle(name: Seq<u8>) -> Seq<u8> {
    name.subrange(2, name.len() - 4)
}

/// The digits among some bytes, in order.
pub open spec fn digits(bytes: Seq<u8>) -> Seq<char> {
    bytes.filter(|b: u8| is_digit(b)).map_values(|b: u8| b as char)
}

/// The number that decimal digits denote.
pub open spec fn decimal_value(digits: Seq<char>) -> nat
    decreases digits.len(),
{
    if digits.len() == 0 {
        0
    } else {
        10 * decimal_value(digits.drop_last()) + (digits.last() as nat - 48) as nat
    }
}

/// The name is that of some chunk's file.
pub open spec fn is_file_name(name: Seq<char>) -> bool {
    exists|n: u64| name == #[trigger] file_name(ChunkId(n))
}

/// The chunk that a name denotes, if it is the name of a chunk's file.
pub open spec fn parsed(name: Seq<char>) -> Option<u64> {
    if is_file_name(name) {
        Some(choose|n: u64| name == #[trigger] file_name(ChunkId(n)))
    } else {
        None
    }
}

/// The number that the digits in a name denote, if the name has the outline
/// of a chunk file name: `r-`, as many bytes as a padded number has, `.wal`.
///
/// The name is given by its UTF-8 encoding.
pub open spec fn scanned(name: Seq<u8>) -> Option<u64> {
    let ds = digits(middle(name));
    if has_suffix(name) && has_prefix(name) && middle(name).len() == PADDED_LEN && ds.len() > 0
        && decimal_value(ds) <= u64::MAX {
        Some(decimal_value(ds) as u64)
    } else {
        None
    }
}

/// The number denoted by the digits among some bytes.
spec fn scan_value(bytes: Seq<u8>) -> nat
    decreases bytes.len(),
{
    if bytes.len() == 0 {
        0
    } else if is_digit(bytes.last()) {
        10 * scan_value(bytes.drop_last()) + (bytes.last() - 48) as nat
    } else {
        scan_value(bytes.drop_last())
    }
}

proof fn lemma_scan_value(bytes: Seq<u8>)
    ensures
        decimal_value(digits(bytes)) == scan_value(bytes),
    decreases bytes.len(),
{
    reveal(Seq::filter);
    if bytes.len() > 0 {
        lemma_scan_value(bytes.drop_last());
        if is_digit(bytes.last()) {
            assert(digits(bytes).drop_last() =~= digits(bytes.drop_last()));
        }
    }
}

/// How many of the last `r` characters of a grouped number are digits.
spec fn digits_in_last(r: int) -> nat {
    (r - r / 4) as nat
}

/// The first `k` characters of a number in grouped decimal denote the number
/// without the digits that follow.
proof fn lemma_scan_grouped(n: nat, width: nat, bytes: Seq<u8>, k: int)
    requires
        width > 0,
        n < crate::num::pow10(width),
        bytes.len() == crate::num::decimal_grouped(n, width).len(),
        forall|i: int|
            0 <= i < bytes.len() ==> #[trigger] bytes[i] == crate::num::decimal_grouped(
                n,
                width,
            )[i] as u8,
        0 <= k <= bytes.len(),
    ensures
        scan_value(bytes.take(k)) == n / crate::num::pow10(digits_in_last(bytes.len() - k)),
    decreases k,
{
    let len = bytes.len() as int;
    if k == 0 {
        assert(digits_in_last(len) == width);
        assert(n / crate::num::pow10(width) == 0) by (nonlinear_arith)
            requires
                n < crate::num::pow10(width),
        ;
    } else {
        lemma_scan_grouped(n, width, bytes, k - 1);
        assert(bytes.take(k).drop_last() =~= bytes.take(k - 1));
        let from_right = len - k;
        let grouped = crate::num::decimal_grouped(n, width);
        assert(bytes.take(k).last() == grouped[k - 1] as u8);
        if from_right % 4 == 3 {
            assert(grouped[k - 1] == '_');
            assert(digits_in_last(from_right + 1) == digits_in_last(from_right));
        } else {
            let e = digits_in_last(from_right);
            let d = crate::num::digit_at(n, e);
            assert(grouped[k - 1] == crate::num::digit_char(d));
            assert(digits_in_last(from_right + 1) == e + 1);
            crate::num::lemma_div_pow10(n, e);
        }
    }
}

/// The digits in the name of a chunk's file denote the chunk.
pub proof fn lemma_scanned(chunk_id: ChunkId)
    ensures
        scanned(vstd::utf8::encode_utf8(file_name(chunk_id))) == Some(chunk_id.0),
{
    let name = file_name(chunk_id);
    let padded = crate::num::padded_u64(chunk_id.0);
    let bytes = vstd::utf8::encode_utf8(name);
    lemma_file_name_bytes(chunk_id);
    let mid = middle(bytes);
    assert(padded.len() == 26);
    assert forall|i: int| 0 <= i < mid.len() implies #[trigger] mid[i]
        == crate::num::decimal_grouped(chunk_id.0 as nat, 20)[i] as u8 by {
        assert(mid[i] == bytes[i + 2]);
        assert(name[i + 2] == padded[i]);
    }
    assert(chunk_id.0 < crate::num::pow10(20)) by {
        reveal_with_fuel(crate::num::pow10, 21);
    }
    lemma_scan_grouped(chunk_id.0 as nat, 20, mid, 26);
    lemma_scan_value(mid);
    assert(mid.take(26) =~= mid);
    assert(chunk_id.0 as nat / crate::num::pow10(0) == chunk_id.0) by (nonlinear_arith)
        requires
            crate::num::pow10(0) == 1,
    ;
    assert(digits(mid).len() > 0) by {
        reveal(Seq::filter);
        assert(is_digit(mid.last()));
    }
}

/// The encoding of a chunk file name.
proof fn lemma_file_name_bytes(chunk_id: ChunkId)
    ensures
        ({
            let name = file_name(chunk_id);
            let bytes = vstd::utf8::encode_utf8(name);
            &&& bytes.len() == name.len() == 32
            &&& forall|i: int| 0 <= i < 32 ==> #[trigger] bytes[i] == name[i] as u8
            &&& has_suffix(bytes)
            &&& has_prefix(bytes)
        }),
{
    let name = file_name(chunk_id);
    let padded = crate::num::padded_u64(chunk_id.0);
    reveal_strlit("r-");
    reveal_strlit(".wal");
    assert(padded.len() == 26);
    assert(vstd::utf8::is_ascii_chars(name)) by {
        assert forall|i: int| 0 <= i < name.len() implies '\0' <= #[trigger] name[i] <= '\u{7f}' by {
            if 2 <= i < 28 {
                assert(name[i] == padded[i - 2]);
            }
        }
    }
    vstd::utf8::is_ascii_chars_encode_utf8(name);
    let bytes = vstd::utf8::encode_utf8(name);
    assert(bytes.skip(28) =~= seq![46u8, 119u8, 97u8, 108u8]) by {
        assert(name[28] == '.' && name[29] == 'w' && name[30] == 'a' && name[31] == 'l');
    }
    assert(bytes.take(2) =~= seq![114u8, 45u8]) by {
        assert(name[0] == 'r' && name[1] == '-');
    }
}

/// Different chunks have differently named files.
pub proof fn law_file_names_differ(a: ChunkId, b: ChunkId)
    requires
        a != b,
    ensures
        file_name(a) != file_name(b),
{
    lemma_scanned(a);
    lemma_scanned(b);
}

/// Parsing the name of a chunk's file gives back the chunk.
pub proof fn law_file_name_round_trip(chunk_id: ChunkId)
    ensures
        parsed(file_name(chunk_id)) == Some(chunk_id.0),
{
    let name = file_name(chunk_id);
    let n = choose|n: u64| name == #[trigger] file_name(ChunkId(n));
    if n != chunk_id.0 {
        law_file_names_differ(chunk_id, ChunkId(n));
    }
}

/// A chunk is denoted by one name only: a name that parses is the name of the
/// chunk it denotes, letter for letter.
pub proof fn law_one_name_per_chunk(name: Seq<char>, chunk_id: ChunkId)
    requires
        parsed(name) == Some(chunk_id.0),
    ensures
        name == file_name(chunk_id),
{
}

/// The name `a` comes before `b` in lexicographic order, both being of the
/// same length.
pub open spec fn sorts_before(a: Seq<char>, b: Seq<char>) -> bool {
    exists|i: int|
        {
            &&& 0 <= i < a.len() == b.len()
            &&& #[trigger] a.take(i) == b.take(i)
            &&& a[i] < b[i]
        }
}

/// Where the first `k` characters of two grouped numbers denote the same
/// number, they are the same.
proof fn lemma_same_start(a: nat, b: nat, width: nat, k: int)
    requires
        width > 0,
        a < crate::num::pow10(width),
        b < crate::num::pow10(width),
        0 <= k <= width + (width - 1) / 3,
        ({
            let r = width + (width - 1) / 3 - k;
            a / crate::num::pow10(digits_in_last(r)) == b / crate::num::pow10(digits_in_last(r))
        }),
    ensures
        crate::num::decimal_grouped(a, width).take(k) == crate::num::decimal_grouped(
            b,
            width,
        ).take(k),
    decreases k,
{
    let ga = crate::num::decimal_grouped(a, width);
    let gb = crate::num::decimal_grouped(b, width);
    if k == 0 {
        assert(ga.take(0) =~= gb.take(0));
    } else {
        let from_right = width + (width - 1) / 3 - k;
        let e = digits_in_last(from_right);
        if from_right % 4 == 3 {
            assert(digits_in_last(from_right + 1) == e);
        } else {
            assert(digits_in_last(from_right + 1) == e + 1);
            crate::num::lemma_div_pow10(a, e);
            crate::num::lemma_div_pow10(b, e);
        }
        lemma_same_start(a, b, width, k - 1);
        assert(ga.take(k) =~= ga.take(k - 1).push(ga[k - 1]));
        assert(gb.take(k) =~= gb.take(k - 1).push(gb[k - 1]));
    }
}

/// Where the first `k` characters of grouped numbers `a < b` denote different
/// numbers, the numbers sort in their order.
proof fn lemma_first_difference(a: nat, b: nat, width: nat, k: int)
    requires
        width > 0,
        a < b < crate::num::pow10(width),
        0 <= k <= width + (width - 1) / 3,
        ({
            let r = width + (width - 1) / 3 - k;
            a / crate::num::pow10(digits_in_last(r)) < b / crate::num::pow10(digits_in_last(r))
        }),
    ensures
        sorts_before(
            crate::num::decimal_grouped(a, width),
            crate::num::decimal_grouped(b, width),
        ),
    decreases k,
{
    let ga = crate::num::decimal_grouped(a, width);
    let gb = crate::num::decimal_grouped(b, width);
    let len = width + (width - 1) / 3;
    if k == 0 {
        assert(digits_in_last(len) == width);
        assert(b / crate::num::pow10(width) == 0) by (nonlinear_arith)
            requires
                b < crate::num::pow10(width),
        ;
        vstd::arithmetic::div_mod::lemma_div_is_ordered(
            a as int,
            b as int,
            crate::num::pow10(width) as int,
        );
    } else {
        let from_right = len - k;
        let e = digits_in_last(from_right);
        if from_right % 4 == 3 {
            assert(digits_in_last(from_right + 1) == e);
            lemma_first_difference(a, b, width, k - 1);
        } else {
            assert(digits_in_last(from_right + 1) == e + 1);
            crate::num::lemma_div_pow10(a, e);
            crate::num::lemma_div_pow10(b, e);
            if a / crate::num::pow10(e + 1) < b / crate::num::pow10(e + 1) {
                lemma_first_difference(a, b, width, k - 1);
            } else {
                lemma_same_start(a, b, width, k - 1);
                assert(ga[k - 1] < gb[k - 1]);
                assert(ga.take(k - 1) == gb.take(k - 1));
            }
        }
    }
}

/// The names of chunk files sort in the order of the chunks.
pub proof fn law_file_names_sort_as_chunks(a: ChunkId, b: ChunkId)
    requires
        a.0 < b.0,
    ensures
        sorts_before(file_name(a), file_name(b)),
{
    let (pa, pb) = (crate::num::padded_u64(a.0), crate::num::padded_u64(b.0));
    reveal_with_fuel(crate::num::pow10, 21);
    assert(a.0 as nat / crate::num::pow10(0) == a.0 && b.0 as nat / crate::num::pow10(0) == b.0)
        by (nonlinear_arith)
        requires
            crate::num::pow10(0) == 1,
    ;
    lemma_first_difference(a.0 as nat, b.0 as nat, 20, 26);
    let i = choose|i: int|
        {
            &&& 0 <= i < pa.len() == pb.len()
            &&& #[trigger] pa.take(i) == pb.take(i)
            &&& pa[i] < pb[i]
        };
    let (na, nb) = (file_name(a), file_name(b));
    let start = "r-"@.len() as int;
    assert(na.take(start + i) =~= "r-"@ + pa.take(i));
    assert(nb.take(start + i) =~= "r-"@ + pb.take(i));
    assert(na[start + i] == pa[i] && nb[start + i] == pb[i]);
    assert(na.len() == nb.len());
}

/// The name of a chunk's file is `r-`, the chunk's offset in twenty digits that
/// are grouped by three, and `.wal`.
pub proof fn law_file_name_shows_the_offset(chunk_id: ChunkId)
    ensures
        ({
            let name = file_name(chunk_id);
            let number = name.subrange(2, 28);
            &&& name.len() == 32
            &&& name[0] == 'r' && name[1] == '-'
            &&& name.skip(28) == seq!['.', 'w', 'a', 'l']
            &&& crate::num::is_grouped(number)
            &&& crate::num::text_value(number) == chunk_id.0
        }),
{
    let name = file_name(chunk_id);
    crate::num::law_padded_text_denotes_the_number(chunk_id.0);
    reveal_strlit("r-");
    reveal_strlit(".wal");
    assert(name.subrange(2, 28) =~= crate::num::padded_u64(chunk_id.0));
    assert(name.skip(28) =~= seq!['.', 'w', 'a', 'l']);
}

/// A name has the outline of a chunk file name if its first two bytes are
/// those of `r-`, its last four those of `.wal`, and there are bytes for a
/// padded number in between; what is read of those is their digits, in order.
pub proof fn law_outline_of_a_name(name: Seq<u8>, i: int)
    ensures
        has_suffix(name) <==> {
            &&& name.len() >= 4
            &&& name[name.len() - 4] == 46 && name[name.len() - 3] == 119
            &&& name[name.len() - 2] == 97 && name[name.len() - 1] == 108
        },
        has_prefix(name) <==> name.len() >= 6 && name[0] == 114 && name[1] == 45,
        name.len() >= 6 ==> middle(name).len() == name.len() - 6,
        name.len() >= 6 && 0 <= i < name.len() - 6 ==> middle(name)[i] == name[i + 2],
        scanned(name) is Some ==> {
            &&& has_suffix(name) && has_prefix(name)
            &&& name.len() == 32
            &&& scanned(name)->0 == decimal_value(digits(middle(name)))
        },
{
    if name.len() >= 4 {
        let end = name.skip(name.len() - 4);
        let wal = seq![46u8, 119u8, 97u8, 108u8];
        assert(end[0] == name[name.len() - 4] && end[1] == name[name.len() - 3] && end[2]
            == name[name.len() - 2] && end[3] == name[name.len() - 1]);
        assert(end == wal <==> (end[0] == 46 && end[1] == 119 && end[2] == 97 && end[3] == 108)) by {
            if end[0] == 46 && end[1] == 119 && end[2] == 97 && end[3] == 108 {
                assert(end =~= wal);
            }
        }
    }
    if name.len() >= 6 {
        let start = name.take(2);
        let r = seq![114u8, 45u8];
        assert(start[0] == name[0] && start[1] == name[1]);
        assert(start == r <==> (start[0] == 114 && start[1] == 45)) by {
            if start[0] == 114 && start[1] == 45 {
                assert(start =~= r);
            }
        }
    }
}

} // verus!
