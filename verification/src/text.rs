//! Character-level text operations on `str` and `String`, stated over their
//! `Seq<char>` views.
use vstd::prelude::*;

verus! {

/// A string's characters, in order.
pub fn chars_of(s: &str) -> (v: Vec<char>)
    ensures
        v@ == s@,
{
    let mut v: Vec<char> = Vec::new();
    for c in it: s.chars()
        invariant
            v@ == it.seq().take(it.index() as int),
            it.seq() == s@,
    {
        v.push(c);
    }
    v
}

} // verus!

verus! {

/// Appends one character to a string (`String::push`).
#[verifier::external_body]
pub(crate) fn push_char(s: &mut String, c: char)
    ensures
        final(s)@ == old(s)@.push(c),
{
    s.push(c);
}

/// A string holding the characters `v[lo..hi]`.
pub fn string_of_range(v: &Vec<char>, lo: usize, hi: usize) -> (r: String)
    requires
        lo <= hi <= v@.len(),
    ensures
        r@ == v@.subrange(lo as int, hi as int),
{
    let mut r = String::new();
    let mut i = lo;
    while i < hi
        invariant
            lo <= i <= hi <= v@.len(),
            r@ == v@.subrange(lo as int, i as int),
        decreases hi - i,
    {
        push_char(&mut r, v[i]);
        i = i + 1;
        assert(r@ =~= v@.subrange(lo as int, i as int));
    }
    r
}

/// A string holding exactly the characters of `v`.
pub fn string_of(v: &Vec<char>) -> (r: String)
    ensures
        r@ == v@,
{
    let r = string_of_range(v, 0, v.len());
    assert(v@.subrange(0, v@.len() as int) =~= v@);
    r
}

/// Appends `t` to `s`.
pub fn push_str(s: &mut String, t: &str)
    ensures
        final(s)@ == old(s)@ + t@,
{
    let v = chars_of(t);
    let mut i: usize = 0;
    while i < v.len()
        invariant
            i <= v@.len(),
            v@ == t@,
            s@ == old(s)@ + v@.take(i as int),
        decreases v.len() - i,
    {
        push_char(s, v[i]);
        i = i + 1;
        assert(s@ =~= old(s)@ + v@.take(i as int));
    }
    assert(v@.take(i as int) =~= v@);
}

/// Two strings with the same characters.
pub fn str_eq(a: &str, b: &str) -> (r: bool)
    ensures
        r == (a@ == b@),
{
    let x = a.to_owned();
    let y = b.to_owned();
    x == y
}

/// Whether `c` is white space as `char::is_white_space` defines it: the
/// Unicode `White_Space` property.
pub open spec fn is_ws(c: char) -> bool {
    let u = c as u32;
    (0x9 <= u <= 0xd) || u == 0x20 || u == 0x85 || u == 0xa0 || u == 0x1680
        || (0x2000 <= u <= 0x200a) || u == 0x2028 || u == 0x2029 || u == 0x202f
        || u == 0x205f || u == 0x3000
}

/// Executable white-space test, as `char::is_whitespace`.
pub fn is_whitespace(c: char) -> (r: bool)
    ensures
        r == is_ws(c),
{
    let u = c as u32;
    (0x9 <= u && u <= 0xd) || u == 0x20 || u == 0x85 || u == 0xa0 || u == 0x1680
        || (0x2000 <= u && u <= 0x200a) || u == 0x2028 || u == 0x2029 || u == 0x202f
        || u == 0x205f || u == 0x3000
}

/// `s` without its leading white space.
pub open spec fn trim_start(s: Seq<char>) -> Seq<char>
    decreases s.len(),
{
    if s.len() > 0 && is_ws(s[0]) {
        trim_start(s.drop_first())
    } else {
        s
    }
}

/// `s` without its trailing white space.
pub open spec fn trim_end(s: Seq<char>) -> Seq<char>
    decreases s.len(),
{
    if s.len() > 0 && is_ws(s.last()) {
        trim_end(s.drop_last())
    } else {
        s
    }
}

/// `s` without leading and trailing white space (`str::trim`).
pub open spec fn trim(s: Seq<char>) -> Seq<char> {
    trim_end(trim_start(s))
}

/// What is left after trimming the end is empty or ends in a character
/// that is not white space.
pub proof fn lemma_trim_end_last(s: Seq<char>)
    ensures
        trim_end(s).len() > 0 ==> !is_ws(trim_end(s).last()),
    decreases s.len(),
{
    if s.len() > 0 && is_ws(s.last()) {
        lemma_trim_end_last(s.drop_last());
    }
}

proof fn lemma_trim_start_skip(s: Seq<char>, i: int)
    requires
        0 <= i <= s.len(),
        forall|k: int| 0 <= k < i ==> is_ws(#[trigger] s[k]),
    ensures
        trim_start(s) == trim_start(s.skip(i)),
    decreases i,
{
    if i > 0 {
        assert(s.skip(1) =~= s.drop_first());
        lemma_trim_start_skip(s.drop_first(), i - 1);
        assert(s.drop_first().skip(i - 1) =~= s.skip(i));
    } else {
        assert(s.skip(0) =~= s);
    }
}

proof fn lemma_trim_end_take(s: Seq<char>, j: int)
    requires
        0 <= j <= s.len(),
        forall|k: int| j <= k < s.len() ==> is_ws(#[trigger] s[k]),
    ensures
        trim_end(s) == trim_end(s.take(j)),
    decreases s.len() - j,
{
    if j < s.len() {
        lemma_trim_end_take(s.drop_last(), j);
        assert(s.drop_last().take(j) =~= s.take(j));
    } else {
        assert(s.take(j) =~= s);
    }
}

/// The bounds `(lo, hi)` of `v` once white space is taken off both ends.
pub fn trim_bounds(v: &Vec<char>) -> (r: (usize, usize))
    ensures
        r.0 <= r.1 <= v@.len(),
        v@.subrange(r.0 as int, r.1 as int) == trim(v@),
{
    let mut lo: usize = 0;
    while lo < v.len() && is_whitespace(v[lo])
        invariant
            lo <= v@.len(),
            forall|k: int| 0 <= k < lo ==> is_ws(#[trigger] v@[k]),
        decreases v.len() - lo,
    {
        lo = lo + 1;
    }
    let mut hi: usize = v.len();
    while hi > lo && is_whitespace(v[hi - 1])
        invariant
            lo <= hi <= v@.len(),
            forall|k: int| hi <= k < v@.len() ==> is_ws(#[trigger] v@[k]),
        decreases hi,
    {
        hi = hi - 1;
    }
    proof {
        lemma_trim_start_skip(v@, lo as int);
        let t = v@.skip(lo as int);
        assert(lo == v@.len() || !is_ws(t[0]));
        assert(trim_start(t) == t);
        lemma_trim_end_take(t, hi - lo);
        assert(t.take(hi - lo) =~= v@.subrange(lo as int, hi as int));
        let u = v@.subrange(lo as int, hi as int);
        assert(u.len() == 0 || !is_ws(u.last()));
        assert(trim_end(u) == u);
    }
    (lo, hi)
}

/// `str::trim`.
pub fn trimmed(s: &str) -> (r: String)
    ensures
        r@ == trim(s@),
{
    let v = chars_of(s);
    let (lo, hi) = trim_bounds(&v);
    string_of_range(&v, lo, hi)
}

} // verus!

verus! {

/// `line` without one trailing carriage return.
pub open spec fn strip_cr(line: Seq<char>) -> Seq<char> {
    if line.len() > 0 && line.last() == '\r' {
        line.drop_last()
    } else {
        line
    }
}

/// Scans `s` for `str::lines`: the finished lines and the line still open.
pub open spec fn scan_lines(s: Seq<char>) -> (Seq<Seq<char>>, Seq<char>)
    decreases s.len(),
{
    if s.len() == 0 {
        (seq![], seq![])
    } else {
        let (done, cur) = scan_lines(s.drop_last());
        if s.last() == '\n' {
            (done.push(strip_cr(cur)), seq![])
        } else {
            (done, cur.push(s.last()))
        }
    }
}

/// The lines of `s` as `str::lines` gives them: split at each `\n`, a `\r`
/// right before that `\n` removed, and no empty line after a final `\n`.
pub open spec fn lines_of(s: Seq<char>) -> Seq<Seq<char>> {
    let (done, cur) = scan_lines(s);
    if cur.len() == 0 {
        done
    } else {
        done.push(cur)
    }
}

proof fn lemma_scan_lines_no_break(a: Seq<char>, b: Seq<char>)
    requires
        !b.contains('\n'),
    ensures
        scan_lines(a + b) == (scan_lines(a).0, scan_lines(a).1 + b),
    decreases b.len(),
{
    if b.len() == 0 {
        assert(a + b =~= a);
        assert(scan_lines(a).1 + b =~= scan_lines(a).1);
    } else {
        let b0 = b.drop_last();
        assert(!b0.contains('\n')) by {
            if b0.contains('\n') {
                let k = choose|k: int| 0 <= k < b0.len() && b0[k] == '\n';
                assert(b[k] == '\n');
            }
        }
        lemma_scan_lines_no_break(a, b0);
        assert((a + b).drop_last() =~= a + b0);
        assert((a + b).last() == b.last());
        assert(b.last() != '\n') by {
            assert(b[b.len() - 1] == b.last());
        }
        assert(scan_lines(a).1 + b0 + seq![b.last()] =~= scan_lines(a).1 + b);
    }
}

/// Lines without a line break, none empty and none ending in a carriage
/// return, are what `str::lines` gives back once they are joined with `\n`.
pub proof fn lemma_lines_of_join(ls: Seq<Seq<char>>)
    requires
        forall|i: int|
            0 <= i < ls.len() ==> {
                &&& (#[trigger] ls[i]).len() > 0
                &&& !ls[i].contains('\n')
                &&& ls[i].last() != '\r'
            },
    ensures
        lines_of(join_with(ls, "\n"@)) == ls,
{
    if ls.len() > 0 {
        lemma_scan_join(ls);
        assert(ls.drop_last().push(ls.last()) =~= ls);
    } else {
        assert(lines_of(join_with(ls, "\n"@)) =~= ls);
    }
}

proof fn lemma_scan_join(ls: Seq<Seq<char>>)
    requires
        ls.len() > 0,
        forall|i: int|
            0 <= i < ls.len() ==> {
                &&& (#[trigger] ls[i]).len() > 0
                &&& !ls[i].contains('\n')
                &&& ls[i].last() != '\r'
            },
    ensures
        scan_lines(join_with(ls, "\n"@)) == (ls.drop_last(), ls.last()),
    decreases ls.len(),
{
    reveal_strlit("\n");
    let last = ls.last();
    assert(last == ls[ls.len() - 1]);
    if ls.len() == 1 {
        lemma_scan_lines_no_break(seq![], last);
        assert(Seq::<char>::empty() + last =~= last);
        assert(join_with(ls, "\n"@) == ls[0]);
        assert(ls.drop_last() =~= Seq::<Seq<char>>::empty());
        assert(scan_lines(Seq::<char>::empty()).1 + last =~= last);
    } else {
        let init = ls.drop_last();
        assert forall|i: int| 0 <= i < init.len() implies {
            &&& (#[trigger] init[i]).len() > 0
            &&& !init[i].contains('\n')
            &&& init[i].last() != '\r'
        } by {
            assert(init[i] == ls[i]);
        }
        lemma_scan_join(init);
        let j = join_with(init, "\n"@);
        let jn = j + "\n"@;
        assert(jn.drop_last() =~= j);
        assert(jn.last() == '\n');
        let prev = init.last();
        assert(prev == ls[ls.len() - 2]);
        assert(strip_cr(prev) == prev);
        assert(init.drop_last().push(prev) =~= init);
        assert(scan_lines(jn) == (init, Seq::<char>::empty()));
        lemma_scan_lines_no_break(jn, last);
        assert(join_with(ls, "\n"@) == jn + last);
        assert(Seq::<char>::empty() + last =~= last);
    }
}

/// Scans `s` for a split at every `sep`: the finished pieces and the open one.
pub open spec fn scan_split(s: Seq<char>, sep: char) -> (Seq<Seq<char>>, Seq<char>)
    decreases s.len(),
{
    if s.len() == 0 {
        (seq![], seq![])
    } else {
        let (done, cur) = scan_split(s.drop_last(), sep);
        if s.last() == sep {
            (done.push(cur), seq![])
        } else {
            (done, cur.push(s.last()))
        }
    }
}

/// All pieces of `s` between occurrences of `sep` (`str::split`), empty ones
/// included; there is always at least one.
pub open spec fn split_on(s: Seq<char>, sep: char) -> Seq<Seq<char>> {
    let (done, cur) = scan_split(s, sep);
    done.push(cur)
}

/// The lines of a character vector, as `str::lines` splits them.
pub fn lines_of_chars(v: &Vec<char>) -> (r: Vec<String>)
    ensures
        r@.map_values(|x: String| x@) == lines_of(v@),
{
    let mut done: Vec<String> = Vec::new();
    let mut cur: Vec<char> = Vec::new();
    let mut i: usize = 0;
    while i < v.len()
        invariant
            i <= v@.len(),
            (done@.map_values(|x: String| x@), cur@) == scan_lines(v@.take(i as int)),
        decreases v.len() - i,
    {
        let c = v[i];
        proof {
            assert(v@.take(i + 1).drop_last() =~= v@.take(i as int));
        }
        if c == '\n' {
            let n = cur.len();
            let line = if n > 0 && cur[n - 1] == '\r' {
                string_of_range(&cur, 0, n - 1)
            } else {
                string_of(&cur)
            };
            proof {
                if n > 0 && cur@[n - 1] == '\r' {
                    assert(cur@.subrange(0, n - 1) =~= cur@.drop_last());
                }
            }
            done.push(line);
            cur = Vec::new();
            assert(done@.map_values(|x: String| x@) =~= scan_lines(v@.take(i as int)).0.push(
                strip_cr(scan_lines(v@.take(i as int)).1),
            ));
        } else {
            cur.push(c);
        }
        i = i + 1;
    }
    assert(v@.take(i as int) =~= v@);
    if cur.len() > 0 {
        let last = string_of(&cur);
        done.push(last);
        assert(done@.map_values(|x: String| x@) =~= scan_lines(v@).0.push(scan_lines(v@).1));
    }
    done
}

/// `str::lines`.
pub fn lines(s: &str) -> (r: Vec<String>)
    ensures
        r@.map_values(|x: String| x@) == lines_of(s@),
{
    let v = chars_of(s);
    lines_of_chars(&v)
}

/// The number of lines `str::lines` gives, computed without building them.
pub fn line_count(s: &str) -> (n: usize)
    ensures
        n == lines_of(s@).len(),
{
    let ls = lines(s);
    assert(ls@.map_values(|x: String| x@).len() == ls@.len());
    ls.len()
}

/// `str::split` at every `sep`.
pub fn split_char(s: &str, sep: char) -> (r: Vec<String>)
    ensures
        r@.map_values(|x: String| x@) == split_on(s@, sep),
{
    let v = chars_of(s);
    let mut done: Vec<String> = Vec::new();
    let mut cur: Vec<char> = Vec::new();
    let mut i: usize = 0;
    while i < v.len()
        invariant
            i <= v@.len(),
            v@ == s@,
            (done@.map_values(|x: String| x@), cur@) == scan_split(v@.take(i as int), sep),
        decreases v.len() - i,
    {
        let c = v[i];
        proof {
            assert(v@.take(i + 1).drop_last() =~= v@.take(i as int));
        }
        if c == sep {
            let piece = string_of(&cur);
            done.push(piece);
            cur = Vec::new();
            assert(done@.map_values(|x: String| x@) =~= scan_split(v@.take(i as int), sep).0.push(
                scan_split(v@.take(i as int), sep).1,
            ));
        } else {
            cur.push(c);
        }
        i = i + 1;
    }
    assert(v@.take(i as int) =~= v@);
    let last = string_of(&cur);
    done.push(last);
    assert(done@.map_values(|x: String| x@) =~= scan_split(v@, sep).0.push(scan_split(v@, sep).1));
    done
}

/// Whether `p` is a prefix of `s`.
pub open spec fn has_prefix(s: Seq<char>, p: Seq<char>) -> bool {
    p.len() <= s.len() && s.take(p.len() as int) == p
}

/// Whether `p` is a suffix of `s`.
pub open spec fn has_suffix(s: Seq<char>, p: Seq<char>) -> bool {
    p.len() <= s.len() && s.skip(s.len() - p.len()) == p
}

/// Whether `n` occurs in `s` as a contiguous piece.
pub open spec fn has_infix(s: Seq<char>, n: Seq<char>) -> bool {
    exists|i: int| 0 <= i && i + n.len() <= s.len() && #[trigger] s.subrange(i, i + n.len()) == n
}

/// Whether `v[at..]` begins with `p`.
pub fn matches_at(v: &Vec<char>, at: usize, p: &Vec<char>) -> (r: bool)
    requires
        at <= v@.len(),
    ensures
        r == (at + p@.len() <= v@.len() && v@.subrange(at as int, at + p@.len()) == p@),
{
    if p.len() > v.len() - at {
        return false;
    }
    let mut k: usize = 0;
    while k < p.len()
        invariant
            at + p@.len() <= v@.len(),
            v@.len() == v.len(),
            k <= p@.len(),
            forall|j: int| 0 <= j < k ==> v@[at + j] == p@[j],
        decreases p.len() - k,
    {
        if v[at + k] != p[k] {
            assert(v@.subrange(at as int, at + p@.len())[k as int] != p@[k as int]);
            return false;
        }
        k = k + 1;
    }
    assert(v@.subrange(at as int, at + p@.len()) =~= p@);
    true
}

/// `str::starts_with`.
pub fn starts_with(s: &str, p: &str) -> (r: bool)
    ensures
        r == has_prefix(s@, p@),
{
    let v = chars_of(s);
    let q = chars_of(p);
    let r = matches_at(&v, 0, &q);
    assert(r ==> v@.take(q@.len() as int) =~= v@.subrange(0, q@.len() as int));
    assert(q@.len() <= v@.len() ==> v@.take(q@.len() as int) =~= v@.subrange(0, q@.len() as int));
    r
}

/// `str::ends_with`.
pub fn ends_with(s: &str, p: &str) -> (r: bool)
    ensures
        r == has_suffix(s@, p@),
{
    let v = chars_of(s);
    let q = chars_of(p);
    if q.len() > v.len() {
        return false;
    }
    let at = v.len() - q.len();
    let r = matches_at(&v, at, &q);
    assert(v@.skip(at as int) =~= v@.subrange(at as int, at + q@.len()));
    r
}

/// `str::contains` for a string pattern.
pub fn contains_str(s: &str, n: &str) -> (r: bool)
    ensures
        r == has_infix(s@, n@),
{
    let v = chars_of(s);
    let q = chars_of(n);
    if q.len() > v.len() {
        assert(!has_infix(s@, n@));
        return false;
    }
    if q.len() == 0 {
        assert(s@.subrange(0, 0 + n@.len() as int) =~= n@);
        return true;
    }
    let last = v.len() - q.len();
    let mut i: usize = 0;
    while i <= last
        invariant
            last + q@.len() == v@.len(),
            q@.len() >= 1,
            v@.len() == v.len(),
            v@ == s@,
            q@ == n@,
            i <= last + 1,
            forall|j: int| 0 <= j < i ==> #[trigger] v@.subrange(j, j + q@.len()) != q@,
        decreases last + 1 - i,
    {
        if matches_at(&v, i, &q) {
            return true;
        }
        i = i + 1;
    }
    assert forall|j: int| 0 <= j && j + n@.len() <= s@.len() implies #[trigger] s@.subrange(
        j,
        j + n@.len(),
    ) != n@ by {
        assert(j < i);
    }
    false
}

} // verus!

verus! {

/// The number of bytes that `c` takes in UTF-8.
pub open spec fn utf8_width(c: char) -> nat {
    let u = c as u32;
    if u <= 0x7f {
        1
    } else if u <= 0x7ff {
        2
    } else if u <= 0xffff {
        3
    } else {
        4
    }
}

/// The length of `s` in UTF-8 bytes, which is what `str::len` counts.
pub open spec fn byte_len(s: Seq<char>) -> nat
    decreases s.len(),
{
    if s.len() == 0 {
        0
    } else {
        byte_len(s.drop_last()) + utf8_width(s.last())
    }
}

proof fn lemma_byte_len_first(s: Seq<char>)
    requires
        s.len() > 0,
    ensures
        byte_len(s) == utf8_width(s[0]) + byte_len(s.drop_first()),
    decreases s.len(),
{
    if s.len() > 1 {
        lemma_byte_len_first(s.drop_last());
        assert(s.drop_last().drop_first() =~= s.drop_first().drop_last());
        assert(s.drop_first().last() == s.last());
        assert(s.drop_last()[0] == s[0]);
        assert(byte_len(s) == byte_len(s.drop_last()) + utf8_width(s.last()));
        assert(byte_len(s.drop_first()) == byte_len(s.drop_first().drop_last()) + utf8_width(
            s.drop_first().last(),
        ));
    } else {
        assert(s.drop_last().len() == 0);
        assert(s.drop_first().len() == 0);
        assert(s.last() == s[0]);
        assert(byte_len(s) == byte_len(s.drop_last()) + utf8_width(s.last()));
    }
}

/// `byte_len` is the length of the UTF-8 encoding.
pub proof fn lemma_byte_len_is_utf8_len(s: Seq<char>)
    ensures
        vstd::utf8::encode_utf8(s).len() == byte_len(s),
    decreases s.len(),
{
    if s.len() > 0 {
        lemma_byte_len_first(s);
        lemma_byte_len_is_utf8_len(s.drop_first());
        vstd::utf8::char_is_scalar(s[0]);
    }
}

/// The UTF-8 width of one character.
pub fn char_width(c: char) -> (w: usize)
    ensures
        w == utf8_width(c),
{
    let u = c as u32;
    if u <= 0x7f {
        1
    } else if u <= 0x7ff {
        2
    } else if u <= 0xffff {
        3
    } else {
        4
    }
}

/// Every character takes at least one byte.
pub proof fn lemma_byte_len_take_grows(s: Seq<char>, i: int, j: int)
    requires
        0 <= i <= j <= s.len(),
    ensures
        byte_len(s.take(i)) + (j - i) <= byte_len(s.take(j)),
    decreases j - i,
{
    if i < j {
        lemma_byte_len_take_grows(s, i, j - 1);
        assert(s.take(j).drop_last() =~= s.take(j - 1));
    }
}

/// The number of characters `k` with `byte_len(v[..k]) == n`, if there is one:
/// where `str::get(..n)` is defined.
pub fn prefix_of_bytes(v: &Vec<char>, n: usize) -> (r: Option<usize>)
    ensures
        r matches Some(k) ==> k <= v@.len() && byte_len(v@.take(k as int)) == n,
        r is None ==> forall|k: int| 0 <= k <= v@.len() ==> byte_len(#[trigger] v@.take(k)) != n,
{
    let mut total: usize = 0;
    let mut i: usize = 0;
    while i < v.len() && total < n
        invariant
            i <= v@.len(),
            total == byte_len(v@.take(i as int)),
            total <= n,
            forall|k: int| 0 <= k < i ==> byte_len(#[trigger] v@.take(k)) < n,
        decreases v.len() - i,
    {
        proof {
            assert(v@.take(i + 1).drop_last() =~= v@.take(i as int));
        }
        let w = char_width(v[i]);
        if w > n - total {
            proof {
                assert forall|k: int| 0 <= k <= v@.len() implies byte_len(#[trigger] v@.take(k)) != n by {
                    if k > i {
                        lemma_byte_len_take_grows(v@, i + 1, k);
                    }
                }
            }
            return None;
        }
        total = total + w;
        i = i + 1;
    }
    if total == n {
        Some(i)
    } else {
        proof {
            assert forall|k: int| 0 <= k <= v@.len() implies byte_len(#[trigger] v@.take(k)) != n by {
                if k > i {
                    lemma_byte_len_take_grows(v@, i as int, k);
                }
            }
        }
        None
    }
}

/// The decimal digit for `d < 10`.
pub open spec fn digit_char(d: nat) -> char {
    if d == 0 { '0' }
    else if d == 1 { '1' }
    else if d == 2 { '2' }
    else if d == 3 { '3' }
    else if d == 4 { '4' }
    else if d == 5 { '5' }
    else if d == 6 { '6' }
    else if d == 7 { '7' }
    else if d == 8 { '8' }
    else { '9' }
}

/// The decimal notation of `n`, without leading zeros (as `u64::to_string`).
pub open spec fn decimal(n: nat) -> Seq<char>
    decreases n,
{
    if n < 10 {
        seq![digit_char(n)]
    } else {
        decimal(n / 10).push(digit_char(n % 10))
    }
}

fn digit(d: u64) -> (c: char)
    requires
        d < 10,
    ensures
        c == digit_char(d as nat),
{
    if d == 0 { '0' }
    else if d == 1 { '1' }
    else if d == 2 { '2' }
    else if d == 3 { '3' }
    else if d == 4 { '4' }
    else if d == 5 { '5' }
    else if d == 6 { '6' }
    else if d == 7 { '7' }
    else if d == 8 { '8' }
    else { '9' }
}

/// Appends the decimal notation of `n` to `s`.
pub fn push_decimal(s: &mut String, n: u64)
    ensures
        final(s)@ == old(s)@ + decimal(n as nat),
    decreases n,
{
    if n < 10 {
        push_char(s, digit(n));
        assert(final(s)@ =~= old(s)@ + decimal(n as nat));
    } else {
        push_decimal(s, n / 10);
        push_char(s, digit(n % 10));
        assert(final(s)@ =~= old(s)@ + decimal(n as nat));
    }
}

/// `u64::to_string`.
pub fn decimal_string(n: u64) -> (r: String)
    ensures
        r@ == decimal(n as nat),
{
    let mut s = String::new();
    push_decimal(&mut s, n);
    assert(s@ =~= decimal(n as nat));
    s
}

/// The result of `str::to_lowercase` on a string (Unicode lower-case mapping).
pub uninterp spec fn lowercase(s: Seq<char>) -> Seq<char>;

/// `str::to_lowercase`: the Unicode lower-case form of `s`. Its result is named
/// `lowercase(s@)` and nothing more is claimed of it.
#[verifier::external_body]
pub fn to_lower(s: &str) -> (r: String)
    ensures
        r@ == lowercase(s@),
{
    s.to_lowercase()
}

} // verus!

verus! {

/// `s` with every trailing `c` removed (`str::trim_end_matches` for a char).
pub open spec fn trim_end_char(s: Seq<char>, c: char) -> Seq<char>
    decreases s.len(),
{
    if s.len() > 0 && s.last() == c {
        trim_end_char(s.drop_last(), c)
    } else {
        s
    }
}

/// `s` with every leading `c` removed (`str::trim_start_matches` for a char).
pub open spec fn trim_start_char(s: Seq<char>, c: char) -> Seq<char>
    decreases s.len(),
{
    if s.len() > 0 && s[0] == c {
        trim_start_char(s.drop_first(), c)
    } else {
        s
    }
}

/// `s` with every leading repetition of `p` removed (`str::trim_start_matches`
/// for a string pattern).
pub open spec fn trim_start_seq(s: Seq<char>, p: Seq<char>) -> Seq<char>
    decreases s.len(),
{
    if p.len() > 0 && has_prefix(s, p) {
        trim_start_seq(s.skip(p.len() as int), p)
    } else {
        s
    }
}

/// `s` with each `c` replaced by `r` (`str::replace`).
pub open spec fn replace_char(s: Seq<char>, c: char, r: Seq<char>) -> Seq<char>
    decreases s.len(),
{
    if s.len() == 0 {
        s
    } else {
        replace_char(s.drop_last(), c, r) + (if s.last() == c { r } else { seq![s.last()] })
    }
}

/// Scans `s` for `str::split_whitespace`: the finished words and the open one.
pub open spec fn scan_words(s: Seq<char>) -> (Seq<Seq<char>>, Seq<char>)
    decreases s.len(),
{
    if s.len() == 0 {
        (seq![], seq![])
    } else {
        let (done, cur) = scan_words(s.drop_last());
        if is_ws(s.last()) {
            if cur.len() > 0 {
                (done.push(cur), seq![])
            } else {
                (done, seq![])
            }
        } else {
            (done, cur.push(s.last()))
        }
    }
}

/// The non-empty runs of non-white-space characters of `s`
/// (`str::split_whitespace`).
pub open spec fn words_of(s: Seq<char>) -> Seq<Seq<char>> {
    let (done, cur) = scan_words(s);
    if cur.len() > 0 {
        done.push(cur)
    } else {
        done
    }
}

/// The pieces of `list` joined with `sep` between them (`join`).
pub open spec fn join_with(list: Seq<Seq<char>>, sep: Seq<char>) -> Seq<char>
    decreases list.len(),
{
    if list.len() == 0 {
        seq![]
    } else if list.len() == 1 {
        list[0]
    } else {
        join_with(list.drop_last(), sep) + sep + list.last()
    }
}

/// `str::trim_end_matches(c)`.
pub fn trim_end_matching(s: &str, c: char) -> (r: String)
    ensures
        r@ == trim_end_char(s@, c),
{
    let v = chars_of(s);
    let mut hi = v.len();
    assert(v@.take(v@.len() as int) =~= v@);
    while hi > 0 && v[hi - 1] == c
        invariant
            hi <= v@.len(),
            v@ == s@,
            trim_end_char(s@, c) == trim_end_char(v@.take(hi as int), c),
        decreases hi,
    {
        assert(v@.take(hi as int).drop_last() =~= v@.take(hi - 1));
        hi = hi - 1;
    }
    assert(v@.subrange(0, hi as int) =~= v@.take(hi as int));
    string_of_range(&v, 0, hi)
}

/// `str::trim_start_matches(c)` on a character vector: the first index that is not `c`.
pub fn skip_leading(v: &Vec<char>, c: char) -> (lo: usize)
    ensures
        lo <= v@.len(),
        v@.skip(lo as int) == trim_start_char(v@, c),
{
    let mut lo: usize = 0;
    assert(v@.skip(0) =~= v@);
    while lo < v.len() && v[lo] == c
        invariant
            lo <= v@.len(),
            trim_start_char(v@, c) == trim_start_char(v@.skip(lo as int), c),
        decreases v.len() - lo,
    {
        assert(v@.skip(lo as int).drop_first() =~= v@.skip(lo + 1));
        lo = lo + 1;
    }
    lo
}

/// `str::trim_start_matches(c)`.
pub fn trim_start_matching(s: &str, c: char) -> (r: String)
    ensures
        r@ == trim_start_char(s@, c),
{
    let v = chars_of(s);
    let lo = skip_leading(&v, c);
    assert(v@.subrange(lo as int, v@.len() as int) =~= v@.skip(lo as int));
    string_of_range(&v, lo, v.len())
}

/// `str::trim_start_matches(p)` for a string pattern.
pub fn trim_start_matching_str(s: &str, p: &str) -> (r: String)
    ensures
        r@ == trim_start_seq(s@, p@),
{
    let v = chars_of(s);
    let q = chars_of(p);
    let mut lo: usize = 0;
    assert(v@.skip(0) =~= v@);
    if q.len() == 0 {
        return string_of(&v);
    }
    while lo < v.len() && matches_at(&v, lo, &q)
        invariant
            lo <= v@.len(),
            q@ == p@,
            q@.len() > 0,
            trim_start_seq(s@, p@) == trim_start_seq(v@.skip(lo as int), p@),
            v@ == s@,
        decreases v.len() - lo,
    {
        assert(v@.skip(lo as int).take(q@.len() as int) =~= v@.subrange(lo as int, lo + q@.len()));
        assert(v@.skip(lo as int).skip(q@.len() as int) =~= v@.skip(lo + q@.len()));
        lo = lo + q.len();
    }
    proof {
        let t = v@.skip(lo as int);
        if q@.len() <= t.len() {
            assert(t.take(q@.len() as int) =~= v@.subrange(lo as int, lo + q@.len()));
        }
    }
    assert(v@.subrange(lo as int, v@.len() as int) =~= v@.skip(lo as int));
    string_of_range(&v, lo, v.len())
}

/// `str::strip_prefix(p)`.
pub fn strip_prefix(s: &str, p: &str) -> (r: Option<String>)
    ensures
        r matches Some(t) ==> has_prefix(s@, p@) && t@ == s@.skip(p@.len() as int),
        r is None ==> !has_prefix(s@, p@),
{
    let v = chars_of(s);
    let q = chars_of(p);
    if matches_at(&v, 0, &q) {
        assert(v@.take(q@.len() as int) =~= v@.subrange(0, q@.len() as int));
        assert(v@.subrange(q@.len() as int, v@.len() as int) =~= v@.skip(q@.len() as int));
        Some(string_of_range(&v, q.len(), v.len()))
    } else {
        assert(q@.len() <= v@.len() ==> v@.take(q@.len() as int) =~= v@.subrange(0, q@.len() as int));
        None
    }
}

/// `str::replace(c, r)`.
pub fn replace_char_with(s: &str, c: char, r: &str) -> (out: String)
    ensures
        out@ == replace_char(s@, c, r@),
{
    let v = chars_of(s);
    let mut out = String::new();
    let mut i: usize = 0;
    while i < v.len()
        invariant
            i <= v@.len(),
            v@ == s@,
            out@ == replace_char(v@.take(i as int), c, r@),
        decreases v.len() - i,
    {
        assert(v@.take(i + 1).drop_last() =~= v@.take(i as int));
        if v[i] == c {
            push_str(&mut out, r);
        } else {
            push_char(&mut out, v[i]);
            assert(out@ =~= replace_char(v@.take(i + 1), c, r@));
        }
        i = i + 1;
    }
    assert(v@.take(i as int) =~= v@);
    out
}

/// `str::split_whitespace`.
pub fn split_words(s: &str) -> (r: Vec<String>)
    ensures
        r@.map_values(|x: String| x@) == words_of(s@),
{
    let v = chars_of(s);
    let mut done: Vec<String> = Vec::new();
    let mut cur: Vec<char> = Vec::new();
    let mut i: usize = 0;
    while i < v.len()
        invariant
            i <= v@.len(),
            v@ == s@,
            (done@.map_values(|x: String| x@), cur@) == scan_words(v@.take(i as int)),
        decreases v.len() - i,
    {
        let c = v[i];
        proof {
            assert(v@.take(i + 1).drop_last() =~= v@.take(i as int));
        }
        if is_whitespace(c) {
            if cur.len() > 0 {
                let w = string_of(&cur);
                done.push(w);
                assert(done@.map_values(|x: String| x@) =~= scan_words(v@.take(i as int)).0.push(
                    scan_words(v@.take(i as int)).1,
                ));
            }
            cur = Vec::new();
        } else {
            cur.push(c);
        }
        i = i + 1;
    }
    assert(v@.take(i as int) =~= v@);
    if cur.len() > 0 {
        let w = string_of(&cur);
        done.push(w);
        assert(done@.map_values(|x: String| x@) =~= scan_words(v@).0.push(scan_words(v@).1));
    }
    done
}

/// `parts.join(sep)`.
pub fn join_strings(parts: &Vec<String>, sep: &str) -> (r: String)
    ensures
        r@ == join_with(parts@.map_values(|x: String| x@), sep@),
{
    let ghost views = parts@.map_values(|x: String| x@);
    let mut r = String::new();
    let mut i: usize = 0;
    while i < parts.len()
        invariant
            i <= parts@.len(),
            views == parts@.map_values(|x: String| x@),
            r@ == join_with(views.take(i as int), sep@),
        decreases parts.len() - i,
    {
        assert(views.take(i + 1).drop_last() =~= views.take(i as int));
        if i > 0 {
            push_str(&mut r, sep);
        } else {
            assert(r@ =~= Seq::<char>::empty());
        }
        push_str(&mut r, parts[i].as_str());
        assert(r@ =~= join_with(views.take(i + 1), sep@));
        i = i + 1;
    }
    assert(views.take(i as int) =~= views);
    r
}

} // verus!
