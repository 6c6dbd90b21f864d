//! Byte-level text utilities: searching, splitting, trimming, case folding
//! and decimal numbers, each with the mathematical statement it meets.
use vstd::prelude::*;

verus! {

/// Index of the first `b` at or after `start`, or the length when there is none.
pub open spec fn find_from(s: Seq<u8>, b: u8, start: int) -> int
    decreases s.len() - start,
{
    if start >= s.len() {
        s.len() as int
    } else if s[start] == b {
        start
    } else {
        find_from(s, b, start + 1)
    }
}

pub proof fn lemma_find_from(s: Seq<u8>, b: u8, start: int)
    requires
        0 <= start <= s.len(),
    ensures
        start <= find_from(s, b, start) <= s.len(),
        find_from(s, b, start) < s.len() ==> s[find_from(s, b, start)] == b,
        forall|k: int| start <= k < find_from(s, b, start) ==> s[k] != b,
    decreases s.len() - start,
{
    if start < s.len() && s[start] != b {
        lemma_find_from(s, b, start + 1);
    }
}

/// The first `c` at or after `start` is at `j` when `s[j]` is `c` and none comes before.
pub proof fn lemma_find_exact(s: Seq<u8>, c: u8, start: int, j: int)
    requires
        0 <= start <= j <= s.len(),
        j < s.len() ==> s[j] == c,
        forall|k: int| start <= k < j ==> s[k] != c,
    ensures
        find_from(s, c, start) == j,
    decreases j - start,
{
    if start < j {
        lemma_find_exact(s, c, start + 1, j);
    }
}

/// No `c` in `s[start..j]` puts the first one at `j` or later.
pub proof fn lemma_find_beyond(s: Seq<u8>, c: u8, start: int, j: int)
    requires
        0 <= start <= j <= s.len(),
        forall|k: int| start <= k < j ==> s[k] != c,
    ensures
        find_from(s, c, start) >= j,
    decreases j - start,
{
    lemma_find_from(s, c, j);
    if start < j {
        lemma_find_beyond(s, c, start + 1, j);
    }
}

/// Searching a slice of `s` is searching `s` within the bounds of the slice.
pub proof fn lemma_find_sub(s: Seq<u8>, c: u8, a: int, b: int, k: int)
    requires
        0 <= a <= k <= b <= s.len(),
    ensures
        find_from(s.subrange(a, b), c, k - a) == if find_from(s, c, k) < b {
            find_from(s, c, k) - a
        } else {
            b - a
        },
    decreases b - k,
{
    lemma_find_from(s, c, k);
    if k < b && s[k] != c {
        lemma_find_sub(s, c, a, b, k + 1);
    }
}

/// Index of the first occurrence of `pat` in `s` at or after `start`, or `s.len()`.
pub open spec fn find_pattern_from(s: Seq<u8>, pat: Seq<u8>, start: int) -> int
    decreases s.len() - start,
{
    if start >= s.len() {
        s.len() as int
    } else if has_prefix_at(s, start, pat) {
        start
    } else {
        find_pattern_from(s, pat, start + 1)
    }
}

pub proof fn lemma_find_pattern(s: Seq<u8>, pat: Seq<u8>, start: int)
    requires
        0 <= start <= s.len(),
    ensures
        start <= find_pattern_from(s, pat, start) <= s.len(),
        find_pattern_from(s, pat, start) < s.len() ==> has_prefix_at(
            s,
            find_pattern_from(s, pat, start),
            pat,
        ),
    decreases s.len() - start,
{
    if start < s.len() && !has_prefix_at(s, start, pat) {
        lemma_find_pattern(s, pat, start + 1);
    }
}

/// The pieces of `s[start..]` between the occurrences of the non-empty `pat`.
pub open spec fn split_pattern_from(s: Seq<u8>, pat: Seq<u8>, start: int) -> Seq<Seq<u8>>
    decreases s.len() + 1 - start,
{
    let e = find_pattern_from(s, pat, start);
    if start < 0 || start > s.len() || e >= s.len() || pat.len() == 0 {
        seq![s.subrange(start, s.len() as int)]
    } else {
        proof {
            lemma_find_pattern(s, pat, start);
        }
        seq![s.subrange(start, e)].add(split_pattern_from(s, pat, e + pat.len()))
    }
}

/// Index of the first `pat` in `s` at or after `start`, or `s.len()`.
pub fn find_pattern(s: &[u8], pat: &[u8], start: usize) -> (r: usize)
    requires
        start <= s.len(),
    ensures
        r == find_pattern_from(s@, pat@, start as int),
        start <= r <= s.len(),
{
    proof {
        lemma_find_pattern(s@, pat@, start as int);
    }
    let mut i = start;
    while i < s.len()
        invariant
            start <= i <= s.len(),
            find_pattern_from(s@, pat@, i as int) == find_pattern_from(s@, pat@, start as int),
        decreases s.len() - i,
    {
        if prefix_at(s, i, pat) {
            return i;
        }
        i += 1;
    }
    i
}

/// Splits `s` at every occurrence of the non-empty `pat`, as `bstr`'s `split_str` does.
pub fn split_pattern(s: &[u8], pat: &[u8]) -> (r: Vec<Vec<u8>>)
    requires
        pat@.len() > 0,
    ensures
        views(r@) == split_pattern_from(s@, pat@, 0),
{
    let mut out: Vec<Vec<u8>> = Vec::new();
    let mut start: usize = 0;
    loop
        invariant
            start <= s.len(),
            pat@.len() > 0,
            views(out@) + split_pattern_from(s@, pat@, start as int) == split_pattern_from(
                s@,
                pat@,
                0,
            ),
        decreases s.len() + 1 - start,
    {
        let e = find_pattern(s, pat, start);
        proof {
            lemma_find_pattern(s@, pat@, start as int);
        }
        let piece = copy_range(s, start, e);
        let ghost before = out@;
        out.push(piece);
        assert(views(out@) == views(before).push(piece@));
        if e == s.len() {
            assert(split_pattern_from(s@, pat@, start as int) == seq![piece@]);
            assert(views(out@) == views(before) + seq![piece@]);
            return out;
        }
        assert(has_prefix_at(s@, e as int, pat@));
        assert(split_pattern_from(s@, pat@, start as int) == seq![piece@].add(
            split_pattern_from(s@, pat@, e + pat@.len()),
        ));
        assert(views(out@) + split_pattern_from(s@, pat@, e + pat@.len()) == views(before)
            + split_pattern_from(s@, pat@, start as int));
        start = e + pat.len();
    }
}

/// ASCII upper case of one byte; other bytes stay.
pub open spec fn upper(b: u8) -> u8 {
    if 97 <= b <= 122 {
        (b - 32) as u8
    } else {
        b
    }
}

/// The pieces of `s[start..]` between the occurrences of `sep`, as `str::split` yields them.
pub open spec fn split_from(s: Seq<u8>, sep: u8, start: int) -> Seq<Seq<u8>>
    decreases s.len() + 1 - start,
{
    let e = find_from(s, sep, start);
    if e >= s.len() || e < start {
        seq![s.subrange(start, s.len() as int)]
    } else {
        seq![s.subrange(start, e)].add(split_from(s, sep, e + 1))
    }
}

/// The pieces of `s` between the occurrences of `sep`.
pub open spec fn split(s: Seq<u8>, sep: u8) -> Seq<Seq<u8>> {
    split_from(s, sep, 0)
}

/// The views of a vector of byte vectors.
pub open spec fn views(v: Seq<Vec<u8>>) -> Seq<Seq<u8>> {
    v.map_values(|x: Vec<u8>| x@)
}

/// Index of the first `b` in `s` at or after `start`, or `s.len()`.
pub fn find_byte(s: &[u8], b: u8, start: usize) -> (r: usize)
    requires
        start <= s.len(),
    ensures
        r == find_from(s@, b, start as int),
        start <= r <= s.len(),
{
    proof {
        lemma_find_from(s@, b, start as int);
    }
    let mut i = start;
    while i < s.len()
        invariant
            start <= i <= s.len(),
            find_from(s@, b, i as int) == find_from(s@, b, start as int),
        decreases s.len() - i,
    {
        if s[i] == b {
            return i;
        }
        i += 1;
    }
    i
}

/// A copy of `s[lo..hi]`.
pub fn copy_range(s: &[u8], lo: usize, hi: usize) -> (r: Vec<u8>)
    requires
        lo <= hi <= s.len(),
    ensures
        r@ == s@.subrange(lo as int, hi as int),
{
    let mut out: Vec<u8> = Vec::new();
    let mut i = lo;
    while i < hi
        invariant
            lo <= i <= hi <= s.len(),
            out@ == s@.subrange(lo as int, i as int),
        decreases hi - i,
    {
        out.push(s[i]);
        i += 1;
    }
    out
}

/// Appends `s` to `out`.
pub fn push_all(out: &mut Vec<u8>, s: &[u8])
    ensures
        final(out)@ == old(out)@ + s@,
{
    let mut i: usize = 0;
    while i < s.len()
        invariant
            i <= s.len(),
            out@ == old(out)@ + s@.subrange(0, i as int),
        decreases s.len() - i,
    {
        out.push(s[i]);
        i += 1;
        assert(s@.subrange(0, i as int) == s@.subrange(0, i - 1).push(s@[i - 1]));
    }
    assert(s@.subrange(0, s.len() as int) == s@);
}

/// Splits `s` at every `sep`, as `str::split` does.
pub fn split_bytes(s: &[u8], sep: u8) -> (r: Vec<Vec<u8>>)
    ensures
        views(r@) == split(s@, sep),
{
    let mut out: Vec<Vec<u8>> = Vec::new();
    let mut start: usize = 0;
    loop
        invariant
            start <= s.len(),
            views(out@) + split_from(s@, sep, start as int) == split(s@, sep),
        decreases s.len() + 1 - start,
    {
        let e = find_byte(s, sep, start);
        proof {
            lemma_find_from(s@, sep, start as int);
        }
        let piece = copy_range(s, start, e);
        let ghost before = out@;
        out.push(piece);
        assert(views(out@) == views(before).push(piece@));
        if e == s.len() {
            assert(split_from(s@, sep, start as int) == seq![piece@]);
            assert(views(out@) == views(before) + seq![piece@]);
            return out;
        }
        assert(split_from(s@, sep, start as int) == seq![piece@].add(
            split_from(s@, sep, e + 1),
        ));
        assert(views(out@) + split_from(s@, sep, e + 1) == views(before) + split_from(
            s@,
            sep,
            start as int,
        ));
        start = e + 1;
    }
}

/// ASCII letters and digits (`[[:alnum:]]`).
pub open spec fn is_alnum(b: u8) -> bool {
    (48 <= b <= 57) || (65 <= b <= 90) || (97 <= b <= 122)
}

pub fn alnum(b: u8) -> (r: bool)
    ensures
        r == is_alnum(b),
{
    (48 <= b && b <= 57) || (65 <= b && b <= 90) || (97 <= b && b <= 122)
}

/// ASCII lower case of one byte; other bytes stay.
pub open spec fn lower(b: u8) -> u8 {
    if 65 <= b <= 90 {
        (b + 32) as u8
    } else {
        b
    }
}

/// ASCII lower case of a byte string.
pub open spec fn lowercase(s: Seq<u8>) -> Seq<u8> {
    s.map_values(|b: u8| lower(b))
}

pub fn to_lower(s: &[u8]) -> (r: Vec<u8>)
    ensures
        r@ == lowercase(s@),
{
    let mut out: Vec<u8> = Vec::new();
    let mut i: usize = 0;
    while i < s.len()
        invariant
            i <= s.len(),
            out@ == lowercase(s@.subrange(0, i as int)),
        decreases s.len() - i,
    {
        let b = s[i];
        let c = if 65 <= b && b <= 90 {
            b + 32
        } else {
            b
        };
        out.push(c);
        i += 1;
        assert(lowercase(s@.subrange(0, i as int)) == lowercase(s@.subrange(0, i - 1)).push(c));
    }
    assert(s@.subrange(0, s.len() as int) == s@);
    out
}

/// Whether `s` holds only ASCII bytes.
pub open spec fn all_ascii(s: Seq<u8>) -> bool {
    forall|i: int| 0 <= i < s.len() ==> s[i] < 128
}

pub fn is_ascii_bytes(s: &[u8]) -> (r: bool)
    ensures
        r == all_ascii(s@),
{
    let mut i: usize = 0;
    while i < s.len()
        invariant
            i <= s.len(),
            forall|k: int| 0 <= k < i ==> s@[k] < 128,
        decreases s.len() - i,
    {
        if s[i] >= 128 {
            return false;
        }
        i += 1;
    }
    true
}

/// Whether `a` and `b` hold the same bytes.
pub fn bytes_eq(a: &[u8], b: &[u8]) -> (r: bool)
    ensures
        r == (a@ == b@),
{
    if a.len() != b.len() {
        return false;
    }
    let mut i: usize = 0;
    while i < a.len()
        invariant
            a.len() == b.len(),
            i <= a.len(),
            forall|k: int| 0 <= k < i ==> a@[k] == b@[k],
        decreases a.len() - i,
    {
        if a[i] != b[i] {
            return false;
        }
        i += 1;
    }
    assert(a@ =~= b@);
    true
}

/// Whether `p` is a prefix of `s[at..]`.
pub open spec fn has_prefix_at(s: Seq<u8>, at: int, p: Seq<u8>) -> bool {
    0 <= at && at + p.len() <= s.len() && s.subrange(at, at + p.len()) == p
}

pub fn prefix_at(s: &[u8], at: usize, p: &[u8]) -> (r: bool)
    ensures
        r == has_prefix_at(s@, at as int, p@),
{
    if at > s.len() || p.len() > s.len() - at {
        return false;
    }
    let mut i: usize = 0;
    while i < p.len()
        invariant
            at + p.len() <= s.len(),
            i <= p.len(),
            forall|k: int| 0 <= k < i ==> s@[at + k] == p@[k],
        decreases p.len() - i,
    {
        if s[at + i] != p[i] {
            assert(s@.subrange(at as int, at + p.len())[i as int] != p@[i as int]);
            return false;
        }
        i += 1;
    }
    assert(s@.subrange(at as int, at + p.len()) =~= p@);
    true
}

// ---------------------------------------------------------------------------
// Unicode white space (`char::is_whitespace`) on UTF-8 bytes
/// Length of the UTF-8 encoding of a white-space character that starts at `i`, or 0.
/// The characters are U+0009..U+000D, U+0020, U+0085, U+00A0, U+1680, U+2000..U+200A,
/// U+2028, U+2029, U+202F, U+205F and U+3000.
pub open spec fn ws_at(s: Seq<u8>, i: int) -> int {
    if 0 <= i < s.len() && ((9 <= s[i] <= 13) || s[i] == 32) {
        1
    } else if 0 <= i && i + 1 < s.len() && s[i] == 0xc2 && (s[i + 1] == 0x85 || s[i + 1] == 0xa0) {
        2
    } else if 0 <= i && i + 2 < s.len() && ((s[i] == 0xe1 && s[i + 1] == 0x9a && s[i + 2] == 0x80)
        || (s[i] == 0xe2 && s[i + 1] == 0x80 && ((0x80 <= s[i + 2] <= 0x8a) || s[i + 2] == 0xa8
        || s[i + 2] == 0xa9 || s[i + 2] == 0xaf)) || (s[i] == 0xe2 && s[i + 1] == 0x81 && s[i + 2]
        == 0x9f) || (s[i] == 0xe3 && s[i + 1] == 0x80 && s[i + 2] == 0x80)) {
        3
    } else {
        0
    }
}

/// Length of the encoding of a white-space character that ends just before `e`, or 0.
pub open spec fn ws_before(s: Seq<u8>, e: int) -> int {
    if 1 <= e <= s.len() && ws_at(s, e - 1) == 1 {
        1
    } else if 2 <= e <= s.len() && ws_at(s, e - 2) == 2 {
        2
    } else if 3 <= e <= s.len() && ws_at(s, e - 3) == 3 {
        3
    } else {
        0
    }
}

/// Where the text starts once leading white space from `i` on is skipped.
pub open spec fn skip_ws(s: Seq<u8>, i: int) -> int
    decreases s.len() - i,
{
    if 0 <= i < s.len() && ws_at(s, i) > 0 {
        skip_ws(s, i + ws_at(s, i))
    } else {
        i
    }
}

/// Where the text ends once trailing white space before `e` (not going below `lo`) is dropped.
pub open spec fn back_ws(s: Seq<u8>, lo: int, e: int) -> int
    decreases e,
{
    if lo < e && e <= s.len() && ws_before(s, e) > 0 && e - ws_before(s, e) >= lo {
        back_ws(s, lo, e - ws_before(s, e))
    } else {
        e
    }
}

/// Length of a white-space character or `"` at `i`, or 0.
pub open spec fn junk_at(s: Seq<u8>, i: int) -> int {
    if ws_at(s, i) > 0 {
        ws_at(s, i)
    } else if 0 <= i < s.len() && s[i] == 34 {
        1
    } else {
        0
    }
}

/// Length of a white-space character or `"` ending just before `e`, or 0.
pub open spec fn junk_before(s: Seq<u8>, e: int) -> int {
    if ws_before(s, e) > 0 {
        ws_before(s, e)
    } else if 1 <= e <= s.len() && s[e - 1] == 34 {
        1
    } else {
        0
    }
}

pub open spec fn skip_junk(s: Seq<u8>, i: int) -> int
    decreases s.len() - i,
{
    if 0 <= i < s.len() && junk_at(s, i) > 0 {
        skip_junk(s, i + junk_at(s, i))
    } else {
        i
    }
}

pub open spec fn back_junk(s: Seq<u8>, lo: int, e: int) -> int
    decreases e,
{
    if lo < e && e <= s.len() && junk_before(s, e) > 0 && e - junk_before(s, e) >= lo {
        back_junk(s, lo, e - junk_before(s, e))
    } else {
        e
    }
}

/// `str::trim_matches(|c| c.is_whitespace() || c == '"')` on bytes.
pub open spec fn trim_quotes(s: Seq<u8>) -> Seq<u8> {
    let a = skip_junk(s, 0);
    s.subrange(a, back_junk(s, a, s.len() as int))
}

/// `str::trim_matches(|c| c.is_whitespace() || c == '"')` on bytes.
pub fn trim_quotes_bytes(s: &[u8]) -> (r: Vec<u8>)
    ensures
        r@ == trim_quotes(s@),
{
    let mut a: usize = 0;
    let mut done = false;
    while !done && a < s.len()
        invariant
            a <= s.len(),
            skip_junk(s@, a as int) == skip_junk(s@, 0),
            done ==> skip_junk(s@, a as int) == a,
        decreases s.len() - a, if done { 0int } else { 1int },
    {
        let w = ws_len_at(s, a);
        let j = if w > 0 {
            w
        } else if s[a] == 34 {
            1
        } else {
            0
        };
        if j == 0 {
            done = true;
        } else {
            a = a + j;
        }
    }
    let mut b = s.len();
    let mut stop = false;
    while !stop && a < b
        invariant
            a <= b <= s.len(),
            skip_junk(s@, 0) == a,
            back_junk(s@, a as int, b as int) == back_junk(s@, a as int, s.len() as int),
            stop ==> back_junk(s@, a as int, b as int) == b,
        decreases b, if stop { 0int } else { 1int },
    {
        let w = ws_len_before(s, b);
        let j = if w > 0 {
            w
        } else if s[b - 1] == 34 {
            1
        } else {
            0
        };
        if j == 0 || b - j < a {
            stop = true;
        } else {
            b = b - j;
        }
    }
    copy_range(s, a, b)
}

/// `str::trim_start` on bytes.
pub open spec fn trim_start(s: Seq<u8>) -> Seq<u8> {
    s.subrange(skip_ws(s, 0), s.len() as int)
}

/// `str::trim` on bytes.
pub open spec fn trim(s: Seq<u8>) -> Seq<u8> {
    let a = skip_ws(s, 0);
    s.subrange(a, back_ws(s, a, s.len() as int))
}

pub proof fn lemma_skip_ws(s: Seq<u8>, i: int)
    requires
        0 <= i <= s.len(),
    ensures
        i <= skip_ws(s, i) <= s.len(),
    decreases s.len() - i,
{
    if i < s.len() && ws_at(s, i) > 0 {
        lemma_skip_ws(s, i + ws_at(s, i));
    }
}

pub proof fn lemma_back_ws(s: Seq<u8>, lo: int, e: int)
    requires
        0 <= lo <= e <= s.len(),
    ensures
        lo <= back_ws(s, lo, e) <= e,
    decreases e,
{
    if lo < e && ws_before(s, e) > 0 && e - ws_before(s, e) >= lo {
        lemma_back_ws(s, lo, e - ws_before(s, e));
    }
}

pub fn ws_len_at(s: &[u8], i: usize) -> (r: usize)
    ensures
        r == ws_at(s@, i as int),
{
    let n = s.len();
    if i < n && ((9 <= s[i] && s[i] <= 13) || s[i] == 32) {
        1
    } else if i < n && n - i > 1 && s[i] == 0xc2 && (s[i + 1] == 0x85 || s[i + 1] == 0xa0) {
        2
    } else if i < n && n - i > 2 && ((s[i] == 0xe1 && s[i + 1] == 0x9a && s[i + 2] == 0x80) || (
    s[i] == 0xe2 && s[i + 1] == 0x80 && ((0x80 <= s[i + 2] && s[i + 2] <= 0x8a) || s[i + 2]
        == 0xa8 || s[i + 2] == 0xa9 || s[i + 2] == 0xaf)) || (s[i] == 0xe2 && s[i + 1] == 0x81
        && s[i + 2] == 0x9f) || (s[i] == 0xe3 && s[i + 1] == 0x80 && s[i + 2] == 0x80)) {
        3
    } else {
        0
    }
}

fn ws_len_before(s: &[u8], e: usize) -> (r: usize)
    requires
        e <= s.len(),
    ensures
        r == ws_before(s@, e as int),
{
    if e >= 1 && ws_len_at(s, e - 1) == 1 {
        1
    } else if e >= 2 && ws_len_at(s, e - 2) == 2 {
        2
    } else if e >= 3 && ws_len_at(s, e - 3) == 3 {
        3
    } else {
        0
    }
}

/// First index at or after `i` that does not begin white space.
pub fn skip_ws_from(s: &[u8], i: usize) -> (r: usize)
    requires
        i <= s.len(),
    ensures
        r == skip_ws(s@, i as int),
        i <= r <= s.len(),
{
    let mut j = i;
    while j < s.len()
        invariant
            i <= j <= s.len(),
            skip_ws(s@, j as int) == skip_ws(s@, i as int),
        decreases s.len() - j,
    {
        let w = ws_len_at(s, j);
        if w == 0 {
            return j;
        }
        j = j + w;
    }
    j
}

/// The end of `s[lo..e]` once trailing white space is dropped.
pub fn back_ws_from(s: &[u8], lo: usize, e: usize) -> (r: usize)
    requires
        lo <= e <= s.len(),
    ensures
        r == back_ws(s@, lo as int, e as int),
        lo <= r <= e,
{
    let mut j = e;
    while lo < j
        invariant
            lo <= j <= e <= s.len(),
            back_ws(s@, lo as int, j as int) == back_ws(s@, lo as int, e as int),
        decreases j,
    {
        let w = ws_len_before(s, j);
        if w == 0 || j - w < lo {
            return j;
        }
        j = j - w;
    }
    j
}

/// `str::trim` on bytes.
pub fn trim_bytes(s: &[u8]) -> (r: Vec<u8>)
    ensures
        r@ == trim(s@),
{
    let a = skip_ws_from(s, 0);
    let b = back_ws_from(s, a, s.len());
    copy_range(s, a, b)
}

// ---------------------------------------------------------------------------
// Decimal numbers
/// The digits of `n` are digits, and read back as `n`.
pub proof fn lemma_decimal_digits(n: nat)
    ensures
        decimal(n).len() > 0,
        forall|i: int| 0 <= i < decimal(n).len() ==> is_digit(#[trigger] decimal(n)[i]),
        digits_value(decimal(n)) == n,
    decreases n,
{
    if n >= 10 {
        lemma_decimal_digits(n / 10);
        let d = decimal(n);
        assert(d.drop_last() == decimal(n / 10));
        assert forall|i: int| 0 <= i < d.len() implies is_digit(#[trigger] d[i]) by {
            if i < d.len() - 1 {
                assert(d[i] == decimal(n / 10)[i]);
            }
        }
        assert(d.last() == (48 + n % 10) as u8);
        assert((n / 10) * 10 + n % 10 == n) by (nonlinear_arith);
        assert(digits_value(d) == digits_value(decimal(n / 10)) * 10 + (d.last() - 48) as nat);
    } else {
        let d = decimal(n);
        assert(d.drop_last() =~= Seq::<u8>::empty());
        assert(digits_value(d) == digits_value(d.drop_last()) * 10 + (d.last() - 48) as nat);
    }
}

/// The decimal digits of `n`, most significant first.
pub open spec fn decimal(n: nat) -> Seq<u8>
    decreases n,
{
    if n < 10 {
        seq![(48 + n) as u8]
    } else {
        decimal(n / 10).push((48 + n % 10) as u8)
    }
}

/// The decimal representation of `n`.
pub fn decimal_bytes(n: u64) -> (r: Vec<u8>)
    ensures
        r@ == decimal(n as nat),
    decreases n,
{
    if n < 10 {
        let mut v: Vec<u8> = Vec::new();
        v.push((48 + n) as u8);
        v
    } else {
        let mut v = decimal_bytes(n / 10);
        v.push((48 + n % 10) as u8);
        v
    }
}

/// Whether `b` is an ASCII digit.
pub open spec fn is_digit(b: u8) -> bool {
    48 <= b <= 57
}

/// The value of a string of ASCII digits.
pub open spec fn digits_value(s: Seq<u8>) -> nat
    decreases s.len(),
{
    if s.len() == 0 {
        0
    } else {
        digits_value(s.drop_last()) * 10 + (s.last() - 48) as nat
    }
}

/// The digits of an unsigned number, after an optional `+`.
pub open spec fn unsigned_digits(s: Seq<u8>) -> Seq<u8> {
    if s.len() > 0 && s[0] == 43 {
        s.drop_first()
    } else {
        s
    }
}

/// What `str::parse` gives for an unsigned integer type whose largest value is `max`:
/// an optional `+`, then one or more digits, and a value that fits.
pub open spec fn parse_unsigned(s: Seq<u8>, max: nat) -> Option<nat> {
    let d = unsigned_digits(s);
    if d.len() > 0 && (forall|i: int| 0 <= i < d.len() ==> is_digit(d[i])) && digits_value(d)
        <= max {
        Some(digits_value(d))
    } else {
        None
    }
}

proof fn lemma_digits_monotone(s: Seq<u8>, i: int)
    requires
        0 <= i <= s.len(),
        forall|k: int| 0 <= k < s.len() ==> is_digit(s[k]),
    ensures
        digits_value(s.subrange(0, i)) <= digits_value(s),
    decreases s.len() - i,
{
    if i < s.len() {
        lemma_digits_monotone(s, i + 1);
        assert(s.subrange(0, i + 1).drop_last() == s.subrange(0, i));
    } else {
        assert(s.subrange(0, i) == s);
    }
}

/// `str::parse::<usize>` on bytes.
pub fn parse_usize(s: &[u8]) -> (r: Option<usize>)
    ensures
        r matches Some(v) ==> parse_unsigned(s@, usize::MAX as nat) == Some(v as nat),
        r is None ==> parse_unsigned(s@, usize::MAX as nat) is None,
{
    let ghost d = unsigned_digits(s@);
    let start: usize = if s.len() > 0 && s[0] == 43 {
        1
    } else {
        0
    };
    assert(d == s@.subrange(start as int, s@.len() as int));
    if start == s.len() {
        return None;
    }
    let mut v: usize = 0;
    let mut i = start;
    while i < s.len()
        invariant
            start <= i <= s.len(),
            d == s@.subrange(start as int, s@.len() as int),
            d == unsigned_digits(s@),
            forall|k: int| start <= k < i ==> is_digit(s@[k]),
            v as nat == digits_value(s@.subrange(start as int, i as int)),
        decreases s.len() - i,
    {
        let c = s[i];
        if c < 48 || c > 57 {
            assert(!is_digit(d[i - start]));
            assert(!(forall|k: int| 0 <= k < d.len() ==> is_digit(d[k])));
            assert(parse_unsigned(s@, usize::MAX as nat) is None);
            return None;
        }
        let digit = (c - 48) as usize;
        let ghost next = s@.subrange(start as int, i + 1);
        assert(next.drop_last() == s@.subrange(start as int, i as int));
        assert(digits_value(next) == v * 10 + digit);
        assert(next == d.subrange(0, i + 1 - start));
        let step = match v.checked_mul(10) {
            Some(m) => m.checked_add(digit),
            None => None,
        };
        match step {
            Some(n) => {
                v = n;
            },
            None => {
                proof {
                    assert(digits_value(next) > usize::MAX);
                    if forall|k: int| 0 <= k < d.len() ==> is_digit(d[k]) {
                        lemma_digits_monotone(d, i + 1 - start);
                    }
                }
                assert(parse_unsigned(s@, usize::MAX as nat) is None);
                return None;
            },
        }
        i += 1;
    }
    assert(s@.subrange(start as int, s.len() as int) == d);
    Some(v)
}

} // verus!
