//! Byte-string helpers shared by the playlist parsers.
//!
//! Playlist text, URLs and file paths are carried as byte strings throughout
//! the library; the helpers here give the parsers their small building
//! blocks, each with an exact contract over `Seq<u8>`.

use vstd::prelude::*;
use vstd::slice::slice_subrange;
use vstd::slice::slice_to_vec;

verus! {

/// Line feed.
pub const LF: u8 = 10;

/// Carriage return.
pub const CR: u8 = 13;

/// An ASCII decimal digit.
pub open spec fn is_digit(b: u8) -> bool {
    48 <= b <= 57
}

/// ASCII whitespace, as `str::trim` strips it from ASCII text.
pub open spec fn is_space(b: u8) -> bool {
    b == 32 || 9 <= b <= 13
}

/// The digits of `s`, in order, everything else dropped.
pub open spec fn digits_of(s: Seq<u8>) -> Seq<u8> {
    s.filter(|b: u8| is_digit(b))
}

/// Keeps only the ASCII digits of the input.
pub fn remove_non_num(url: &[u8]) -> (r: Vec<u8>)
    ensures
        r@ == digits_of(url@),
{
    broadcast use vstd::seq_lib::group_filter_ensures;

    let mut r: Vec<u8> = Vec::new();
    let mut i: usize = 0;
    proof {
        assert(url@.subrange(0, 0) =~= Seq::<u8>::empty());
    }
    while i < url.len()
        invariant
            i <= url@.len(),
            r@ == url@.subrange(0, i as int).filter(|b: u8| is_digit(b)),
        decreases url@.len() - i,
    {
        let b = url[i];
        proof {
            let prefix = url@.subrange(0, i as int);
            assert(url@.subrange(0, i + 1) =~= prefix.push(b));
            lemma_filter_push(prefix, b);
        }
        if b >= 48 && b <= 57 {
            r.push(b);
        }
        i = i + 1;
    }
    proof {
        assert(url@.subrange(0, url@.len() as int) =~= url@);
    }
    r
}

/// `filter` over a pushed element unfolds to a conditional push.
proof fn lemma_filter_push(s: Seq<u8>, b: u8)
    ensures
        s.push(b).filter(|x: u8| is_digit(x)) == if is_digit(b) {
            s.filter(|x: u8| is_digit(x)).push(b)
        } else {
            s.filter(|x: u8| is_digit(x))
        },
{
    reveal_with_fuel(Seq::filter, 2);
    assert(s.push(b).drop_last() =~= s);
    assert(s.push(b).last() == b);
}

/// A copy of a byte string.
pub fn clone_bytes(v: &Vec<u8>) -> (r: Vec<u8>)
    ensures
        r@ == v@,
{
    slice_to_vec(v.as_slice())
}

/// A copy of `s[i..j]`.
pub fn take_range(s: &[u8], i: usize, j: usize) -> (r: Vec<u8>)
    requires
        i <= j <= s@.len(),
    ensures
        r@ == s@.subrange(i as int, j as int),
{
    slice_to_vec(slice_subrange(s, i, j))
}

/// Appends `src` to `dst`.
pub fn append_bytes(dst: &mut Vec<u8>, src: &[u8])
    ensures
        final(dst)@ == old(dst)@ + src@,
{
    let mut i: usize = 0;
    proof {
        assert(dst@ =~= dst@ + src@.subrange(0, 0));
    }
    while i < src.len()
        invariant
            i <= src@.len(),
            dst@ == old(dst)@ + src@.subrange(0, i as int),
        decreases src@.len() - i,
    {
        dst.push(src[i]);
        proof {
            assert(dst@ =~= old(dst)@ + src@.subrange(0, i + 1));
        }
        i = i + 1;
    }
    proof {
        assert(src@.subrange(0, src@.len() as int) =~= src@);
    }
}

/// Whether two byte strings hold the same bytes.
pub fn bytes_eq(a: &[u8], b: &[u8]) -> (r: bool)
    ensures
        r <==> a@ == b@,
{
    if a.len() != b.len() {
        return false;
    }
    let mut i: usize = 0;
    while i < a.len()
        invariant
            i <= a@.len(),
            a@.len() == b@.len(),
            forall|j: int| 0 <= j < i ==> a@[j] == b@[j],
        decreases a@.len() - i,
    {
        if a[i] != b[i] {
            return false;
        }
        i = i + 1;
    }
    proof {
        assert(a@ =~= b@);
    }
    true
}

/// The first position of `b` in `s`; `None` if `b` does not occur.
pub fn find_byte(s: &[u8], b: u8) -> (r: Option<usize>)
    ensures
        r matches Some(i) ==> i < s@.len() && s@[i as int] == b && forall|j: int|
            0 <= j < i ==> s@[j] != b,
        r is None ==> forall|j: int| 0 <= j < s@.len() ==> s@[j] != b,
{
    let mut i: usize = 0;
    while i < s.len()
        invariant
            i <= s@.len(),
            forall|j: int| 0 <= j < i ==> s@[j] != b,
        decreases s@.len() - i,
    {
        if s[i] == b {
            return Some(i);
        }
        i = i + 1;
    }
    None
}

/// The last position of `b` in `s`; `None` if `b` does not occur.
pub fn rfind_byte(s: &[u8], b: u8) -> (r: Option<usize>)
    ensures
        r matches Some(i) ==> i < s@.len() && s@[i as int] == b && forall|j: int|
            i < j < s@.len() ==> s@[j] != b,
        r is None ==> forall|j: int| 0 <= j < s@.len() ==> s@[j] != b,
{
    let mut i: usize = s.len();
    while i > 0
        invariant
            i <= s@.len(),
            forall|j: int| i <= j < s@.len() ==> s@[j] != b,
        decreases i,
    {
        i = i - 1;
        if s[i] == b {
            return Some(i);
        }
    }
    None
}

/// Everything before the last `/` of a URL; `None` when the URL has no `/`.
pub fn url_prefix<'a>(url: &'a [u8]) -> (r: Option<&'a [u8]>)
    ensures
        r matches Some(p) ==> exists|n: int|
            0 <= n < url@.len() && url@[n] == '/' as u8 && (forall|j: int|
                n < j < url@.len() ==> url@[j] != '/' as u8) && p@ == url@.subrange(0, n),
        r is None ==> forall|j: int| 0 <= j < url@.len() ==> url@[j] != '/' as u8,
{
    match rfind_byte(url, '/' as u8) {
        Some(n) => Some(slice_subrange(url, 0, n)),
        None => None,
    }
}

/// Whether `needle` occurs in `hay` starting at position `i`.
pub open spec fn occurs_at(hay: Seq<u8>, needle: Seq<u8>, i: int) -> bool {
    0 <= i && i + needle.len() <= hay.len() && hay.subrange(i, i + needle.len() as int) == needle
}

/// Whether `hay[i..]` starts with `needle`.
fn match_at(hay: &[u8], needle: &[u8], i: usize) -> (r: bool)
    requires
        i + needle@.len() <= hay@.len(),
    ensures
        r <==> occurs_at(hay@, needle@, i as int),
{
    let hn = hay.len();
    let mut k: usize = 0;
    while k < needle.len()
        invariant
            k <= needle@.len(),
            hn == hay@.len(),
            i + needle@.len() <= hay@.len(),
            forall|j: int| 0 <= j < k ==> hay@[i + j] == needle@[j],
        decreases needle@.len() - k,
    {
        if hay[i + k] != needle[k] {
            proof {
                let sub = hay@.subrange(i as int, i + needle@.len() as int);
                assert(sub[k as int] != needle@[k as int]);
            }
            return false;
        }
        k = k + 1;
    }
    proof {
        assert(hay@.subrange(i as int, i + needle@.len() as int) =~= needle@);
    }
    true
}

/// The first position where `needle` occurs in `hay`; `None` if it never
/// does.
pub fn find_sub(hay: &[u8], needle: &[u8]) -> (r: Option<usize>)
    ensures
        r matches Some(i) ==> occurs_at(hay@, needle@, i as int) && forall|j: int|
            0 <= j < i ==> !occurs_at(hay@, needle@, j),
        r is None ==> forall|j: int| !occurs_at(hay@, needle@, j),
{
    if needle.len() > hay.len() {
        return None;
    }
    let stop = hay.len() - needle.len();
    let mut i: usize = 0;
    loop
        invariant
            needle@.len() <= hay@.len(),
            stop == hay@.len() - needle@.len(),
            i <= stop,
            forall|j: int| 0 <= j < i ==> !occurs_at(hay@, needle@, j),
        ensures
            forall|j: int| !occurs_at(hay@, needle@, j),
        decreases stop - i,
    {
        if match_at(hay, needle, i) {
            return Some(i);
        }
        if i == stop {
            break;
        }
        i = i + 1;
    }
    None
}

/// The first position of `b` in `s`, or `s.len()` when `b` does not occur.
pub open spec fn first_index_of(s: Seq<u8>, b: u8) -> nat
    decreases s.len(),
{
    if s.len() == 0 {
        0
    } else if s[0] == b {
        0
    } else {
        1 + first_index_of(s.drop_first(), b)
    }
}

/// What `first_index_of` finds: the position is in range, holds `b` when in
/// range, and nothing before it holds `b`.
pub proof fn lemma_first_index_of(s: Seq<u8>, b: u8)
    ensures
        first_index_of(s, b) <= s.len(),
        first_index_of(s, b) < s.len() ==> s[first_index_of(s, b) as int] == b,
        forall|j: int| 0 <= j < first_index_of(s, b) ==> s[j] != b,
    decreases s.len(),
{
    if s.len() > 0 && s[0] != b {
        lemma_first_index_of(s.drop_first(), b);
        assert forall|j: int| 0 <= j < first_index_of(s, b) implies s[j] != b by {
            if j > 0 {
                assert(s.drop_first()[j - 1] != b);
            }
        }
    }
}

/// A position with `b` such that nothing before it holds `b` is the first.
pub proof fn lemma_first_index_of_is(s: Seq<u8>, b: u8, k: nat)
    requires
        k <= s.len(),
        forall|j: int| 0 <= j < k ==> s[j] != b,
        k < s.len() ==> s[k as int] == b,
    ensures
        first_index_of(s, b) == k,
    decreases s.len(),
{
    if s.len() > 0 && s[0] != b {
        assert forall|j: int| 0 <= j < k - 1 implies s.drop_first()[j] != b by {
            assert(s.drop_first()[j] == s[j + 1]);
        }
        lemma_first_index_of_is(s.drop_first(), b, (k - 1) as nat);
    }
}

/// `s` split at every occurrence of `sep`, the separators themselves
/// dropped.
pub open spec fn split_at_byte(s: Seq<u8>, sep: u8) -> Seq<Seq<u8>>
    decreases s.len(),
{
    let i = first_index_of(s, sep);
    if i >= s.len() {
        seq![s]
    } else {
        seq![s.subrange(0, i as int)] + split_at_byte(s.subrange(i as int + 1, s.len() as int), sep)
    }
}

/// A split has at least one part.
pub proof fn lemma_split_at_byte_len(s: Seq<u8>, sep: u8)
    ensures
        split_at_byte(s, sep).len() >= 1,
{
}

/// Splits a byte string at a separator, as `str::split` does for one
/// matching character.
pub fn split_byte(s: &[u8], sep: u8) -> (r: Vec<Vec<u8>>)
    ensures
        r@.map_values(|v: Vec<u8>| v@) == split_at_byte(s@, sep),
{
    let mut r: Vec<Vec<u8>> = Vec::new();
    let mut p: usize = 0;
    proof {
        assert(s@.subrange(0, s@.len() as int) =~= s@);
        assert(r@.map_values(|v: Vec<u8>| v@) + split_at_byte(s@, sep) =~= split_at_byte(s@, sep));
    }
    loop
        invariant
            p <= s@.len(),
            split_at_byte(s@, sep) == r@.map_values(|v: Vec<u8>| v@) + split_at_byte(
                s@.subrange(p as int, s@.len() as int),
                sep,
            ),
        ensures
            r@.map_values(|v: Vec<u8>| v@) == split_at_byte(s@, sep),
        decreases s@.len() - p,
    {
        let ghost tail = s@.subrange(p as int, s@.len() as int);
        let mut q: usize = p;
        while q < s.len() && s[q] != sep
            invariant
                p <= q <= s@.len(),
                forall|j: int| p <= j < q ==> s@[j] != sep,
            decreases s@.len() - q,
        {
            q = q + 1;
        }
        proof {
            assert forall|j: int| 0 <= j < q - p implies tail[j] != sep by {
                assert(tail[j] == s@[p + j]);
            }
            if q < s@.len() {
                assert(tail[(q - p) as int] == s@[q as int]);
            }
            lemma_first_index_of_is(tail, sep, (q - p) as nat);
        }
        let part = take_range(s, p, q);
        proof {
            assert(part@ =~= tail.subrange(0, q - p));
        }
        if q == s.len() {
            proof {
                assert(tail.subrange(0, q - p) =~= tail);
                assert(split_at_byte(tail, sep) == seq![tail]);
            }
            r.push(part);
            proof {
                let m = r@.map_values(|v: Vec<u8>| v@);
                let prevm = r@.drop_last().map_values(|v: Vec<u8>| v@);
                assert(m =~= prevm.push(tail));
                assert(prevm + seq![tail] =~= m);
            }
            return r;
        }
        r.push(part);
        proof {
            let rest = tail.subrange(q - p + 1, tail.len() as int);
            assert(rest =~= s@.subrange(q + 1, s@.len() as int));
            let m = r@.map_values(|v: Vec<u8>| v@);
            let prevm = r@.drop_last().map_values(|v: Vec<u8>| v@);
            assert(m =~= prevm.push(part@));
            assert(prevm + (seq![part@] + split_at_byte(rest, sep)) =~= m + split_at_byte(
                rest,
                sep,
            ));
        }
        p = q + 1;
    }
}

/// A line with its trailing carriage return removed, as `str::lines` yields
/// it.
pub open spec fn strip_cr(l: Seq<u8>) -> Seq<u8> {
    if l.len() > 0 && l.last() == CR {
        l.drop_last()
    } else {
        l
    }
}

/// The lines of `s`: split at every line feed, a trailing carriage return
/// stripped from each line, and a final empty piece (from a trailing line
/// feed) dropped — the behaviour of `str::lines`.
pub open spec fn lines_of(s: Seq<u8>) -> Seq<Seq<u8>> {
    if s.len() == 0 {
        Seq::empty()
    } else {
        let parts = split_at_byte(s, LF);
        let kept = if parts.last().len() == 0 {
            parts.drop_last()
        } else {
            parts
        };
        kept.map_values(|l: Seq<u8>| strip_cr(l))
    }
}

/// Splits text into its lines, as `str::lines` does.
pub fn split_lines(text: &[u8]) -> (r: Vec<Vec<u8>>)
    ensures
        r@.map_values(|v: Vec<u8>| v@) == lines_of(text@),
{
    let mut r: Vec<Vec<u8>> = Vec::new();
    if text.len() == 0 {
        proof {
            assert(r@.map_values(|v: Vec<u8>| v@) =~= lines_of(text@));
        }
        return r;
    }
    let mut parts = split_byte(text, LF);
    let ghost all = parts@.map_values(|v: Vec<u8>| v@);
    proof {
        lemma_split_at_byte_len(text@, LF);
    }
    let n = parts.len();
    if parts[n - 1].len() == 0 {
        parts.pop();
        proof {
            assert(parts@.map_values(|v: Vec<u8>| v@) =~= all.drop_last());
        }
    }
    let ghost kept = parts@.map_values(|v: Vec<u8>| v@);
    let mut i: usize = 0;
    while i < parts.len()
        invariant
            i <= parts@.len(),
            kept == parts@.map_values(|v: Vec<u8>| v@),
            r@.len() == i,
            forall|j: int| 0 <= j < i ==> r@[j]@ == strip_cr(kept[j]),
        decreases parts@.len() - i,
    {
        let part = &parts[i];
        let m = part.len();
        let stripped: Vec<u8> = if m > 0 && part[m - 1] == CR {
            take_range(part.as_slice(), 0, m - 1)
        } else {
            clone_bytes(part)
        };
        proof {
            assert(stripped@ =~= strip_cr(kept[i as int]));
        }
        r.push(stripped);
        i = i + 1;
    }
    proof {
        assert(r@.map_values(|v: Vec<u8>| v@) =~= kept.map_values(|l: Seq<u8>| strip_cr(l)));
    }
    r
}

/// The last position of `b` in `s`, or `-1` when `b` does not occur.
pub open spec fn last_index_of(s: Seq<u8>, b: u8) -> int
    decreases s.len(),
{
    if s.len() == 0 {
        -1
    } else if s.last() == b {
        s.len() - 1
    } else {
        last_index_of(s.drop_last(), b)
    }
}

/// A position holding `b` with none after it is the last one.
pub proof fn lemma_last_index_of_is(s: Seq<u8>, b: u8, k: int)
    requires
        0 <= k < s.len(),
        s[k] == b,
        forall|j: int| k < j < s.len() ==> s[j] != b,
    ensures
        last_index_of(s, b) == k,
    decreases s.len(),
{
    if k < s.len() - 1 {
        lemma_last_index_of_is(s.drop_last(), b, k);
    }
}

/// Without any occurrence there is no last one.
pub proof fn lemma_last_index_of_none(s: Seq<u8>, b: u8)
    requires
        forall|j: int| 0 <= j < s.len() ==> s[j] != b,
    ensures
        last_index_of(s, b) == -1,
    decreases s.len(),
{
    if s.len() > 0 {
        lemma_last_index_of_none(s.drop_last(), b);
    }
}

/// The first position at or after `i` where `needle` occurs in `hay`.
pub open spec fn find_from(hay: Seq<u8>, needle: Seq<u8>, i: int) -> Option<int>
    recommends
        0 <= i,
    decreases hay.len() - i + 1,
{
    if i < 0 || i + needle.len() > hay.len() {
        None
    } else if occurs_at(hay, needle, i) {
        Some(i)
    } else {
        find_from(hay, needle, i + 1)
    }
}

/// A first occurrence at `k` is what `find_from` finds.
pub proof fn lemma_find_from_is(hay: Seq<u8>, needle: Seq<u8>, i: int, k: int)
    requires
        0 <= i <= k,
        occurs_at(hay, needle, k),
        forall|j: int| i <= j < k ==> !occurs_at(hay, needle, j),
    ensures
        find_from(hay, needle, i) == Some(k),
    decreases k - i,
{
    if i < k {
        lemma_find_from_is(hay, needle, i + 1, k);
    }
}

/// Without any occurrence `find_from` finds nothing.
pub proof fn lemma_find_from_none(hay: Seq<u8>, needle: Seq<u8>, i: int)
    requires
        0 <= i,
        forall|j: int| !occurs_at(hay, needle, j),
    ensures
        find_from(hay, needle, i) is None,
    decreases hay.len() - i + 1,
{
    if !(i < 0 || i + needle.len() > hay.len()) {
        lemma_find_from_none(hay, needle, i + 1);
    }
}

/// The numeric value of a string of ASCII digits.
pub open spec fn dec_value(s: Seq<u8>) -> int
    decreases s.len(),
{
    if s.len() == 0 {
        0
    } else {
        10 * dec_value(s.drop_last()) + (s.last() - 48)
    }
}

/// Whether every byte of `s` is an ASCII digit.
pub open spec fn all_digits(s: Seq<u8>) -> bool {
    forall|i: int| 0 <= i < s.len() ==> is_digit(s[i])
}

/// A digit string's value is non-negative.
proof fn lemma_dec_value_nonneg(s: Seq<u8>)
    requires
        all_digits(s),
    ensures
        dec_value(s) >= 0,
    decreases s.len(),
{
    if s.len() > 0 {
        assert(all_digits(s.drop_last()));
        lemma_dec_value_nonneg(s.drop_last());
    }
}

/// A digit string is worth at least any of its prefixes.
proof fn lemma_dec_value_prefix(s: Seq<u8>, i: int)
    requires
        all_digits(s),
        0 <= i <= s.len(),
    ensures
        dec_value(s.subrange(0, i)) <= dec_value(s),
    decreases s.len() - i,
{
    if i == s.len() {
        assert(s.subrange(0, i) =~= s);
    } else {
        let p = s.subrange(0, i);
        let q = s.subrange(0, i + 1);
        assert(q.drop_last() =~= p);
        assert(all_digits(p));
        lemma_dec_value_nonneg(p);
        lemma_dec_value_prefix(s, i + 1);
    }
}

/// The number a digit string denotes, if it is non-empty, all digits, and
/// fits — what `str::parse::<u32>` accepts.
pub open spec fn dec_u32(s: Seq<u8>) -> Option<u32> {
    if s.len() > 0 && all_digits(s) && dec_value(s) <= u32::MAX {
        Some(dec_value(s) as u32)
    } else {
        None
    }
}

/// Parses an unsigned decimal number, as `str::parse::<u32>` does on a
/// digit string: the whole input must be digits, be non-empty, and fit.
pub fn parse_u32(s: &[u8]) -> (r: Option<u32>)
    ensures
        r == dec_u32(s@),
{
    if s.len() == 0 {
        return None;
    }
    let mut acc: u64 = 0;
    let mut i: usize = 0;
    proof {
        assert(s@.subrange(0, 0) =~= Seq::<u8>::empty());
    }
    while i < s.len()
        invariant
            i <= s@.len(),
            acc <= u32::MAX,
            all_digits(s@.subrange(0, i as int)),
            acc == dec_value(s@.subrange(0, i as int)),
        decreases s@.len() - i,
    {
        let b = s[i];
        if b < 48 || b > 57 {
            return None;
        }
        proof {
            assert(s@.subrange(0, i + 1).drop_last() =~= s@.subrange(0, i as int));
            assert(all_digits(s@.subrange(0, i + 1)));
        }
        acc = acc * 10 + ((b - 48) as u64);
        i = i + 1;
        if acc > u32::MAX as u64 {
            proof {
                if all_digits(s@) {
                    lemma_dec_value_prefix(s@, i as int);
                }
            }
            return None;
        }
    }
    proof {
        assert(s@.subrange(0, s@.len() as int) =~= s@);
    }
    Some(acc as u32)
}

/// The decimal rendering of a non-negative number, most significant digit
/// first, no leading zeros (a lone zero for zero).
pub open spec fn dec_rep(n: int) -> Seq<u8>
    recommends
        n >= 0,
    decreases n,
{
    if n < 10 {
        seq![(48 + n) as u8]
    } else {
        dec_rep(n / 10).push((48 + n % 10) as u8)
    }
}

/// Renders a number in decimal.
pub fn u32_dec(n: u32) -> (r: Vec<u8>)
    ensures
        r@ == dec_rep(n as int),
    decreases n,
{
    if n < 10 {
        let mut v: Vec<u8> = Vec::new();
        v.push(48 + n as u8);
        proof {
            assert(v@ =~= dec_rep(n as int));
        }
        v
    } else {
        let mut v = u32_dec(n / 10);
        v.push(48 + (n % 10) as u8);
        v
    }
}

/// `str::trim` on ASCII text: leading and trailing whitespace removed.
pub open spec fn trim_spec(s: Seq<u8>) -> Seq<u8>
    decreases s.len(),
{
    if s.len() == 0 {
        s
    } else if is_space(s[0]) {
        trim_spec(s.drop_first())
    } else if is_space(s.last()) {
        trim_spec(s.drop_last())
    } else {
        s
    }
}

/// Removes leading and trailing ASCII whitespace.
pub fn trim(s: &[u8]) -> (r: Vec<u8>)
    ensures
        r@ == trim_spec(s@),
    decreases s@.len(),
{
    if s.len() == 0 {
        Vec::new()
    } else if s[0] == 32 || (s[0] >= 9 && s[0] <= 13) {
        let rest = slice_subrange(s, 1, s.len());
        proof {
            assert(rest@ =~= s@.drop_first());
        }
        trim(rest)
    } else if s[s.len() - 1] == 32 || (s[s.len() - 1] >= 9 && s[s.len() - 1] <= 13) {
        let rest = slice_subrange(s, 0, s.len() - 1);
        proof {
            assert(rest@ =~= s@.drop_last());
        }
        trim(rest)
    } else {
        slice_to_vec(s)
    }
}

/// How a timestamp byte is rewritten for use in a file name.
pub open spec fn time_char(b: u8) -> u8 {
    if b == ':' as u8 {
        '-' as u8
    } else if b == 'T' as u8 {
        '_' as u8
    } else {
        b
    }
}

/// Rewrites a timestamp for use in a file name: `:` becomes `-` and `T`
/// becomes `_`.
pub fn sanitize_time(s: &[u8]) -> (r: Vec<u8>)
    ensures
        r@ == s@.map_values(|b: u8| time_char(b)),
{
    let mut r: Vec<u8> = Vec::new();
    let mut i: usize = 0;
    while i < s.len()
        invariant
            i <= s@.len(),
            r@ =~= s@.subrange(0, i as int).map_values(|b: u8| time_char(b)),
        decreases s@.len() - i,
    {
        let b = s[i];
        if b == ':' as u8 {
            r.push('-' as u8);
        } else if b == 'T' as u8 {
            r.push('_' as u8);
        } else {
            r.push(b);
        }
        proof {
            assert(s@.subrange(0, i + 1) =~= s@.subrange(0, i as int).push(b));
            assert(r@ =~= s@.subrange(0, i + 1).map_values(|x: u8| time_char(x)));
        }
        i = i + 1;
    }
    proof {
        assert(s@.subrange(0, s@.len() as int) =~= s@);
    }
    r
}

} // verus!

verus! {

/// The bytes of an ASCII character sequence, one byte per character.
pub open spec fn ascii_seq(s: Seq<char>) -> Seq<u8> {
    Seq::new(s.len(), |i: int| s[i] as u8)
}

/// The bytes of an ASCII string slice.
pub fn str_bytes(s: &str) -> (r: Vec<u8>)
    requires
        s.is_ascii(),
    ensures
        r@ == ascii_seq(s@),
{
    broadcast use vstd::string::is_ascii_spec_bytes;

    let r = s.as_bytes_vec();
    proof {
        assert(r@ =~= ascii_seq(s@));
    }
    r
}

} // verus!
