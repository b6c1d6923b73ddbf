//! Character-level text helpers with exact specifications.
//!
//! Strings are handled as sequences of `char`, which is what `String` and
//! `str` are viewed as in specifications.

use vstd::prelude::*;

verus! {

// ---------------------------------------------------------------------------
// Conversions between strings and character vectors
// ---------------------------------------------------------------------------

/// The characters of `s`, in order.
pub fn chars_of(s: &str) -> (v: Vec<char>)
    ensures
        v@ == s@,
{
    let mut v: Vec<char> = Vec::new();
    for c in it: s.chars()
        invariant
            v@ == it.seq().take(it.index() as int),
    {
        v.push(c);
    }
    v
}

/// Appends one character to a `String`: `String::push`, whose documentation
/// says that it appends the given char to the end of the string.
#[verifier::external_body]
fn push_char(s: &mut String, c: char)
    ensures
        final(s)@ == old(s)@.push(c),
{
    s.push(c);
}

/// A `String` holding the characters of `v[from..to]`.
pub fn string_of_range(v: &[char], from: usize, to: usize) -> (s: String)
    requires
        from <= to <= v@.len(),
    ensures
        s@ == v@.subrange(from as int, to as int),
{
    let mut s = String::new();
    let mut i = from;
    while i < to
        invariant
            from <= i <= to <= v@.len(),
            s@ == v@.subrange(from as int, i as int),
        decreases to - i,
    {
        push_char(&mut s, v[i]);
        i = i + 1;
        assert(s@ =~= v@.subrange(from as int, i as int));
    }
    s
}

/// A `String` holding the characters of `v`.
pub fn string_of(v: &[char]) -> (s: String)
    ensures
        s@ == v@,
{
    let s = string_of_range(v, 0, v.len());
    assert(v@.subrange(0, v@.len() as int) =~= v@);
    s
}

/// `a` followed by `b`.
pub fn concat_strs(a: &str, b: &str) -> (s: String)
    ensures
        s@ == a@ + b@,
{
    let mut s = String::from_str(a);
    s.append(b);
    s
}

/// Whether `a` and `b` hold the same characters.
pub fn str_equals(a: &str, b: &str) -> (r: bool)
    ensures
        r == (a@ == b@),
{
    let va = chars_of(a);
    let vb = chars_of(b);
    if va.len() != vb.len() {
        return false;
    }
    let mut i: usize = 0;
    while i < va.len()
        invariant
            va@ == a@,
            vb@ == b@,
            va@.len() == vb@.len(),
            i <= va@.len(),
            forall|j: int| 0 <= j < i ==> va@[j] == vb@[j],
        decreases va@.len() - i,
    {
        if va[i] != vb[i] {
            assert(a@[i as int] != b@[i as int]);
            return false;
        }
        i = i + 1;
    }
    assert(va@ =~= vb@);
    true
}

// ---------------------------------------------------------------------------
// Whitespace and trimming
// ---------------------------------------------------------------------------

/// The Unicode `White_Space` property: the characters that `char::is_whitespace`
/// accepts and that the regular-expression class `\s` matches.
pub open spec fn is_white_space(c: char) -> bool {
    ||| ('\t' <= c && c <= '\r')
    ||| c == ' '
    ||| c == '\u{85}'
    ||| c == '\u{a0}'
    ||| c == '\u{1680}'
    ||| ('\u{2000}' <= c && c <= '\u{200a}')
    ||| c == '\u{2028}'
    ||| c == '\u{2029}'
    ||| c == '\u{202f}'
    ||| c == '\u{205f}'
    ||| c == '\u{3000}'
}

/// Executable test of [`is_white_space`].
pub fn char_is_white_space(c: char) -> (b: bool)
    ensures
        b == is_white_space(c),
{
    ('\t' <= c && c <= '\r') || c == ' ' || c == '\u{85}' || c == '\u{a0}' || c == '\u{1680}'
        || ('\u{2000}' <= c && c <= '\u{200a}') || c == '\u{2028}' || c == '\u{2029}'
        || c == '\u{202f}' || c == '\u{205f}' || c == '\u{3000}'
}

/// `s` without its leading whitespace.
pub open spec fn trim_start(s: Seq<char>) -> Seq<char>
    decreases s.len(),
{
    if s.len() > 0 && is_white_space(s[0]) {
        trim_start(s.drop_first())
    } else {
        s
    }
}

/// `s` without its trailing whitespace.
pub open spec fn trim_end(s: Seq<char>) -> Seq<char>
    decreases s.len(),
{
    if s.len() > 0 && is_white_space(s.last()) {
        trim_end(s.drop_last())
    } else {
        s
    }
}

/// `s` without leading and trailing whitespace, as `str::trim` gives it.
pub open spec fn trim(s: Seq<char>) -> Seq<char> {
    trim_end(trim_start(s))
}

/// Skipping a prefix of whitespace does not change where trimming starts.
proof fn lemma_trim_start_skip(s: Seq<char>, i: int)
    requires
        0 <= i <= s.len(),
        forall|j: int| 0 <= j < i ==> is_white_space(#[trigger] s[j]),
    ensures
        trim_start(s) == trim_start(s.subrange(i, s.len() as int)),
    decreases i,
{
    if i == 0 {
        assert(s.subrange(0, s.len() as int) =~= s);
    } else {
        assert(is_white_space(s[0]));
        let t = s.drop_first();
        assert forall|j: int| 0 <= j < i - 1 implies is_white_space(#[trigger] t[j]) by {
            assert(t[j] == s[j + 1]);
        }
        lemma_trim_start_skip(t, i - 1);
        assert(t.subrange(i - 1, t.len() as int) =~= s.subrange(i, s.len() as int));
    }
}

/// Dropping a suffix of whitespace does not change where trimming ends.
proof fn lemma_trim_end_take(s: Seq<char>, k: int)
    requires
        0 <= k <= s.len(),
        forall|j: int| k <= j < s.len() ==> is_white_space(#[trigger] s[j]),
    ensures
        trim_end(s) == trim_end(s.subrange(0, k)),
    decreases s.len() - k,
{
    if k == s.len() {
        assert(s.subrange(0, k) =~= s);
    } else {
        assert(is_white_space(s.last()));
        let t = s.drop_last();
        assert forall|j: int| k <= j < t.len() implies is_white_space(#[trigger] t[j]) by {
            assert(t[j] == s[j]);
        }
        lemma_trim_end_take(t, k);
        assert(t.subrange(0, k) =~= s.subrange(0, k));
    }
}

/// Every character of `s` is whitespace.
pub open spec fn all_white_space(s: Seq<char>) -> bool {
    forall|i: int| 0 <= i < s.len() ==> is_white_space(#[trigger] s[i])
}

/// Trimming whitespace only leaves nothing.
pub proof fn lemma_trim_start_all_white(w: Seq<char>)
    requires
        all_white_space(w),
    ensures
        trim_start(w) == Seq::<char>::empty(),
    decreases w.len(),
{
    if w.len() > 0 {
        assert(is_white_space(w[0]));
        let d = w.drop_first();
        assert forall|i: int| 0 <= i < d.len() implies is_white_space(#[trigger] d[i]) by {
            assert(d[i] == w[i + 1]);
        }
        lemma_trim_start_all_white(d);
    } else {
        assert(w =~= Seq::<char>::empty());
    }
}

/// Leading whitespace makes no difference to where trimming starts.
pub proof fn lemma_trim_start_white_prefix(w: Seq<char>, x: Seq<char>)
    requires
        all_white_space(w),
    ensures
        trim_start(w + x) == trim_start(x),
    decreases w.len(),
{
    if w.len() > 0 {
        assert((w + x)[0] == w[0]);
        assert(is_white_space(w[0]));
        let d = w.drop_first();
        assert forall|i: int| 0 <= i < d.len() implies is_white_space(#[trigger] d[i]) by {
            assert(d[i] == w[i + 1]);
        }
        assert((w + x).drop_first() =~= d + x);
        lemma_trim_start_white_prefix(d, x);
    } else {
        assert(w + x =~= x);
    }
}

/// Trailing whitespace makes no difference to where trimming ends.
pub proof fn lemma_trim_end_white_suffix(x: Seq<char>, w: Seq<char>)
    requires
        all_white_space(w),
    ensures
        trim_end(x + w) == trim_end(x),
    decreases w.len(),
{
    if w.len() > 0 {
        assert((x + w).last() == w.last());
        assert(is_white_space(w[w.len() - 1]));
        let d = w.drop_last();
        assert forall|i: int| 0 <= i < d.len() implies is_white_space(#[trigger] d[i]) by {
            assert(d[i] == w[i]);
        }
        assert((x + w).drop_last() =~= x + d);
        lemma_trim_end_white_suffix(x, d);
    } else {
        assert(x + w =~= x);
    }
}

/// Trimming the start of `t` followed by whitespace `w`.
pub proof fn lemma_trim_start_append_white(t: Seq<char>, w: Seq<char>)
    requires
        all_white_space(w),
    ensures
        trim_start(t + w) == (if all_white_space(t) {
            Seq::<char>::empty()
        } else {
            trim_start(t) + w
        }),
    decreases t.len(),
{
    if t.len() == 0 {
        assert(t + w =~= w);
        lemma_trim_start_all_white(w);
    } else if is_white_space(t[0]) {
        let d = t.drop_first();
        assert((t + w)[0] == t[0]);
        assert((t + w).drop_first() =~= d + w);
        lemma_trim_start_append_white(d, w);
        if all_white_space(d) {
            assert forall|i: int| 0 <= i < t.len() implies is_white_space(#[trigger] t[i]) by {
                if i > 0 {
                    assert(t[i] == d[i - 1]);
                }
            }
        } else {
            let j = choose|j: int| 0 <= j < d.len() && !is_white_space(#[trigger] d[j]);
            assert(t[j + 1] == d[j]);
        }
    } else {
        assert((t + w)[0] == t[0]);
        assert(!is_white_space(t[0]));
    }
}

/// Whitespace around a text makes no difference to the trimmed text.
pub proof fn lemma_trim_ignores_surrounding_white(w1: Seq<char>, t: Seq<char>, w2: Seq<char>)
    requires
        all_white_space(w1),
        all_white_space(w2),
    ensures
        trim(w1 + t + w2) == trim(t),
{
    assert(w1 + t + w2 =~= w1 + (t + w2));
    lemma_trim_start_white_prefix(w1, t + w2);
    lemma_trim_start_append_white(t, w2);
    if all_white_space(t) {
        lemma_trim_start_all_white(t);
    } else {
        lemma_trim_end_white_suffix(trim_start(t), w2);
    }
}

/// A text that begins and ends with non-whitespace, followed by `p`, trims to
/// itself followed by `p` without its trailing whitespace.
pub proof fn lemma_trim_solid_head(h: Seq<char>, p: Seq<char>)
    requires
        h.len() > 0,
        !is_white_space(h[0]),
        !is_white_space(h.last()),
    ensures
        trim(h + p) == h + trim_end(p),
    decreases p.len(),
{
    assert((h + p)[0] == h[0]);
    assert(trim_start(h + p) == h + p);
    if p.len() == 0 {
        assert(h + p =~= h);
        assert(h + trim_end(p) =~= h);
    } else if is_white_space(p.last()) {
        assert((h + p).last() == p.last());
        assert((h + p).drop_last() =~= h + p.drop_last());
        lemma_trim_solid_head(h, p.drop_last());
        assert((h + p.drop_last())[0] == h[0]);
        assert(trim_start(h + p.drop_last()) == h + p.drop_last());
    } else {
        assert((h + p).last() == p.last());
    }
}

/// The bounds `(lo, hi)` such that `v[lo..hi]` is `v` trimmed.
pub fn trim_bounds(v: &[char]) -> (r: (usize, usize))
    ensures
        r.0 <= r.1 <= v@.len(),
        v@.subrange(r.0 as int, r.1 as int) == trim(v@),
{
    let mut lo: usize = 0;
    while lo < v.len() && char_is_white_space(v[lo])
        invariant
            lo <= v@.len(),
            forall|j: int| 0 <= j < lo ==> is_white_space(#[trigger] v@[j]),
        decreases v@.len() - lo,
    {
        lo = lo + 1;
    }
    proof {
        lemma_trim_start_skip(v@, lo as int);
    }
    let ghost rest = v@.subrange(lo as int, v@.len() as int);
    assert(trim_start(rest) == rest);
    let mut hi: usize = v.len();
    while hi > lo && char_is_white_space(v[hi - 1])
        invariant
            lo <= hi <= v@.len(),
            forall|j: int| hi <= j < v@.len() ==> is_white_space(#[trigger] v@[j]),
        decreases hi,
    {
        hi = hi - 1;
    }
    proof {
        let k = hi - lo;
        assert forall|j: int| k <= j < rest.len() implies is_white_space(#[trigger] rest[j]) by {
            assert(rest[j] == v@[lo + j]);
        }
        lemma_trim_end_take(rest, k);
        assert(rest.subrange(0, k) =~= v@.subrange(lo as int, hi as int));
        let u = v@.subrange(lo as int, hi as int);
        if u.len() > 0 {
            assert(u.last() == v@[hi - 1]);
        }
        assert(trim_end(u) == u);
    }
    (lo, hi)
}

/// `s` trimmed, as a character vector.
pub fn trim_chars(s: &str) -> (v: Vec<char>)
    ensures
        v@ == trim(s@),
{
    let all = chars_of(s);
    let (lo, hi) = trim_bounds(all.as_slice());
    let mut v: Vec<char> = Vec::new();
    let mut i = lo;
    while i < hi
        invariant
            lo <= i <= hi <= all@.len(),
            v@ == all@.subrange(lo as int, i as int),
        decreases hi - i,
    {
        v.push(all[i]);
        i = i + 1;
        assert(v@ =~= all@.subrange(lo as int, i as int));
    }
    v
}

/// `s` trimmed: `str::trim`.
pub fn trim_str(s: &str) -> (t: String)
    ensures
        t@ == trim(s@),
{
    let v = trim_chars(s);
    string_of(v.as_slice())
}


// ---------------------------------------------------------------------------
// ASCII case-insensitive comparison
// ---------------------------------------------------------------------------

/// `c` is `l`, or the ASCII upper-case letter whose lower-case form is `l`.
pub open spec fn char_lowers_to(c: char, l: char) -> bool {
    c == l || ('A' <= c && c <= 'Z' && c as int + 32 == l as int)
}

/// Lower-casing the ASCII letters of `s` gives `t`.
///
/// Every literal that this library compares against is ASCII, lower case and
/// free of the letter `k`; no character outside ASCII lower-cases to a string
/// of such characters. So for those literals this is exactly
/// `s.to_lowercase() == t`.
pub open spec fn lowers_to(s: Seq<char>, t: Seq<char>) -> bool {
    &&& s.len() == t.len()
    &&& forall|i: int| 0 <= i < s.len() ==> char_lowers_to(#[trigger] s[i], t[i])
}

/// `t` occurs in `s` at `i`, up to the ASCII case of `s`.
pub open spec fn lowers_to_at(s: Seq<char>, t: Seq<char>, i: int) -> bool {
    0 <= i && i + t.len() <= s.len() && lowers_to(s.subrange(i, i + t.len()), t)
}

/// `t` occurs in `s` up to the ASCII case of `s`: for the literals of this
/// library, `s.to_lowercase().contains(t)`.
pub open spec fn contains_lowered(s: Seq<char>, t: Seq<char>) -> bool {
    exists|i: int| lowers_to_at(s, t, i)
}

/// `c` with an ASCII upper-case letter made lower case.
pub open spec fn ascii_lower_char(c: char) -> char {
    if 'A' <= c && c <= 'Z' {
        ((c as u32) + 32) as char
    } else {
        c
    }
}

/// `s` with its ASCII upper-case letters made lower case.
pub open spec fn ascii_lowercase(s: Seq<char>) -> Seq<char> {
    s.map_values(|c: char| ascii_lower_char(c))
}

/// `t` holds no ASCII upper-case letter.
pub open spec fn no_ascii_upper(t: Seq<char>) -> bool {
    forall|i: int| 0 <= i < t.len() ==> !('A' <= #[trigger] t[i] && t[i] <= 'Z')
}

/// Comparing with a lower-case text ignores the case of the compared text:
/// `s` and `s` lower-cased compare alike.
pub proof fn lemma_lowers_to_ignores_case(s: Seq<char>, t: Seq<char>)
    requires
        no_ascii_upper(t),
    ensures
        lowers_to(s, t) == lowers_to(ascii_lowercase(s), t),
{
    let l = ascii_lowercase(s);
    assert forall|i: int| 0 <= i < s.len() && i < t.len() implies char_lowers_to(
        #[trigger] s[i],
        t[i],
    ) == char_lowers_to(l[i], t[i]) by {
        let c = s[i];
        assert(l[i] == ascii_lower_char(c));
        assert(!('A' <= t[i] && t[i] <= 'Z'));
        if 'A' <= c && c <= 'Z' {
            assert(((c as u32) + 32) as char as int == c as int + 32);
        }
    }
    if lowers_to(l, t) {
        assert forall|i: int| 0 <= i < s.len() implies char_lowers_to(#[trigger] s[i], t[i]) by {
            assert(char_lowers_to(l[i], t[i]));
        }
    }
    if lowers_to(s, t) {
        assert forall|i: int| 0 <= i < l.len() implies char_lowers_to(#[trigger] l[i], t[i]) by {
            assert(char_lowers_to(s[i], t[i]));
        }
    }
}

/// A text lowers to at most one lower-case text.
pub proof fn lemma_lowers_to_unique(s: Seq<char>, a: Seq<char>, b: Seq<char>)
    requires
        no_ascii_upper(a),
        no_ascii_upper(b),
        lowers_to(s, a),
        lowers_to(s, b),
    ensures
        a == b,
{
    assert forall|i: int| 0 <= i < a.len() implies a[i] == b[i] by {
        assert(char_lowers_to(s[i], a[i]));
        assert(char_lowers_to(s[i], b[i]));
        assert(!('A' <= a[i] && a[i] <= 'Z'));
        assert(!('A' <= b[i] && b[i] <= 'Z'));
        assert(a[i] as int == b[i] as int);
    }
    assert(a =~= b);
}

/// Whether a lower-case text occurs in `s` does not depend on the case of `s`.
pub proof fn lemma_contains_lowered_ignores_case(s: Seq<char>, t: Seq<char>)
    requires
        no_ascii_upper(t),
    ensures
        contains_lowered(s, t) == contains_lowered(ascii_lowercase(s), t),
{
    let l = ascii_lowercase(s);
    assert forall|i: int| 0 <= i && i + t.len() <= s.len() implies lowers_to_at(s, t, i)
        == lowers_to_at(l, t, i) by {
        assert(l.subrange(i, i + t.len()) =~= ascii_lowercase(s.subrange(i, i + t.len())));
        lemma_lowers_to_ignores_case(s.subrange(i, i + t.len()), t);
    }
    if contains_lowered(s, t) {
        let i = choose|i: int| lowers_to_at(s, t, i);
        assert(lowers_to_at(l, t, i));
    }
    if contains_lowered(l, t) {
        let i = choose|i: int| lowers_to_at(l, t, i);
        assert(lowers_to_at(s, t, i));
    }
}

/// Executable test of [`char_lowers_to`].
fn char_lowers_to_exec(c: char, l: char) -> (b: bool)
    ensures
        b == char_lowers_to(c, l),
{
    c == l || ('A' <= c && c <= 'Z' && (c as u32) + 32 == (l as u32))
}

/// Whether `s[at..at + t.len()]` lowers to `t`.
fn lowers_to_at_exec(s: &[char], t: &[char], at: usize) -> (b: bool)
    requires
        at + t@.len() <= s@.len(),
    ensures
        b == lowers_to_at(s@, t@, at as int),
{
    let slen = s.len();
    let mut i: usize = 0;
    while i < t.len()
        invariant
            slen == s@.len(),
            at + t@.len() <= s@.len(),
            i <= t@.len(),
            forall|j: int| 0 <= j < i ==> char_lowers_to(#[trigger] s@[at + j], t@[j]),
        decreases t@.len() - i,
    {
        if !char_lowers_to_exec(s[at + i], t[i]) {
            assert(s@.subrange(at as int, at + t@.len())[i as int] == s@[at + i]);
            return false;
        }
        i = i + 1;
    }
    assert forall|j: int| 0 <= j < t@.len() implies char_lowers_to(
        #[trigger] s@.subrange(at as int, at + t@.len())[j],
        t@[j],
    ) by {
        assert(s@.subrange(at as int, at + t@.len())[j] == s@[at + j]);
    }
    true
}

/// Whether lower-casing the ASCII letters of `s` gives `t`.
pub fn str_lowers_to(s: &str, t: &str) -> (b: bool)
    ensures
        b == lowers_to(s@, t@),
{
    let vs = chars_of(s);
    let vt = chars_of(t);
    if vs.len() != vt.len() {
        return false;
    }
    let b = lowers_to_at_exec(vs.as_slice(), vt.as_slice(), 0);
    assert(vs@.subrange(0, vt@.len() as int) =~= vs@);
    b
}

/// Whether `t` occurs in `s` up to the ASCII case of `s`.
pub fn str_contains_lowered(s: &str, t: &str) -> (b: bool)
    ensures
        b == contains_lowered(s@, t@),
{
    let vs = chars_of(s);
    let vt = chars_of(t);
    if vt.len() > vs.len() {
        assert forall|i: int| !lowers_to_at(s@, t@, i) by {}
        return false;
    }
    let last = vs.len() - vt.len();
    let mut i: usize = 0;
    loop
        invariant
            vs@ == s@,
            vt@ == t@,
            last == vs@.len() - vt@.len(),
            i <= last,
            forall|j: int| 0 <= j < i ==> !lowers_to_at(s@, t@, j),
        decreases last - i,
    {
        if lowers_to_at_exec(vs.as_slice(), vt.as_slice(), i) {
            return true;
        }
        if i == last {
            return false;
        }
        i = i + 1;
    }
}

// ---------------------------------------------------------------------------
// Searching and slicing
// ---------------------------------------------------------------------------

/// `n` occurs in `h` at index `i`.
pub open spec fn occurs_at(h: Seq<char>, n: Seq<char>, i: int) -> bool {
    0 <= i && i + n.len() <= h.len() && h.subrange(i, i + n.len()) == n
}

/// The first index, from `i` on, at which `n` occurs in `h`.
pub open spec fn find_from(h: Seq<char>, n: Seq<char>, i: int) -> Option<int>
    decreases h.len() + 1 - i,
{
    if i < 0 || i + n.len() > h.len() {
        None
    } else if occurs_at(h, n, i) {
        Some(i)
    } else {
        find_from(h, n, i + 1)
    }
}

/// The first index at which `n` occurs in `h`: `str::find`, counted in chars.
pub open spec fn find(h: Seq<char>, n: Seq<char>) -> Option<int> {
    find_from(h, n, 0)
}

/// `h` starts with `p`.
pub open spec fn starts_with(h: Seq<char>, p: Seq<char>) -> bool {
    occurs_at(h, p, 0)
}

/// What `split(c).next()` gives: `s` up to its first `c`, or all of `s`.
pub open spec fn before_char(s: Seq<char>, c: char) -> Seq<char> {
    match find(s, seq![c]) {
        Some(i) => s.take(i),
        None => s,
    }
}

/// `s` with every occurrence of `p` taken out, scanning from the left as
/// `str::replace(p, "")` does.
pub open spec fn remove_all(s: Seq<char>, p: Seq<char>) -> Seq<char>
    decreases s.len(),
{
    if s.len() == 0 {
        s
    } else if p.len() > 0 && occurs_at(s, p, 0) {
        remove_all(s.skip(p.len() as int), p)
    } else {
        seq![s[0]] + remove_all(s.drop_first(), p)
    }
}

/// Whether `n` occurs in `h` at `at`.
pub fn occurs_at_exec(h: &[char], n: &[char], at: usize) -> (b: bool)
    ensures
        b == occurs_at(h@, n@, at as int),
{
    if n.len() > h.len() || at > h.len() - n.len() {
        return false;
    }
    let hlen = h.len();
    let mut i: usize = 0;
    while i < n.len()
        invariant
            hlen == h@.len(),
            at + n@.len() <= h@.len(),
            i <= n@.len(),
            forall|j: int| 0 <= j < i ==> #[trigger] h@[at + j] == n@[j],
        decreases n@.len() - i,
    {
        if h[at + i] != n[i] {
            assert(h@.subrange(at as int, at + n@.len())[i as int] == h@[at + i]);
            return false;
        }
        i = i + 1;
    }
    assert(h@.subrange(at as int, at + n@.len()) =~= n@) by {
        assert forall|j: int| 0 <= j < n@.len() implies #[trigger] h@.subrange(
            at as int,
            at + n@.len(),
        )[j] == n@[j] by {
            assert(h@.subrange(at as int, at + n@.len())[j] == h@[at + j]);
        }
    }
    true
}

/// The first index at which `n` occurs in `h`.
pub fn find_exec(h: &[char], n: &[char]) -> (r: Option<usize>)
    ensures
        match r {
            Some(i) => find(h@, n@) == Some(i as int),
            None => find(h@, n@) is None,
        },
{
    if n.len() > h.len() {
        return None;
    }
    let last = h.len() - n.len();
    let mut i: usize = 0;
    loop
        invariant
            last == h@.len() - n@.len(),
            i <= last,
            find(h@, n@) == find_from(h@, n@, i as int),
        decreases last - i,
    {
        if occurs_at_exec(h, n, i) {
            return Some(i);
        }
        if i == last {
            assert(find_from(h@, n@, i + 1) is None);
            return None;
        }
        i = i + 1;
    }
}

/// Where a single character is found first.
pub proof fn lemma_find_char(s: Seq<char>, c: char, k: int)
    requires
        0 <= k <= s.len(),
        forall|j: int| 0 <= j < k ==> s[j] != c,
        k < s.len() ==> s[k] == c,
    ensures
        find(s, seq![c]) == (if k < s.len() {
            Some(k)
        } else {
            None::<int>
        }),
{
    lemma_find_char_from(s, c, k, 0);
}

proof fn lemma_find_char_from(s: Seq<char>, c: char, k: int, i: int)
    requires
        0 <= i <= k <= s.len(),
        forall|j: int| 0 <= j < k ==> s[j] != c,
        k < s.len() ==> s[k] == c,
    ensures
        find_from(s, seq![c], i) == (if k < s.len() {
            Some(k)
        } else {
            None::<int>
        }),
    decreases k - i,
{
    if i < k {
        assert(s.subrange(i, i + 1)[0] == s[i]);
        assert(!occurs_at(s, seq![c], i));
        lemma_find_char_from(s, c, k, i + 1);
    } else if k < s.len() {
        assert(s.subrange(k, k + 1) =~= seq![c]);
    }
}

/// The first index, at `from` or after it, that holds `c`.
pub fn find_char_from(v: &[char], from: usize, c: char) -> (r: Option<usize>)
    requires
        from <= v@.len(),
    ensures
        match r {
            Some(k) => from <= k < v@.len() && find(v@.skip(from as int), seq![c]) == Some(
                k - from,
            ),
            None => find(v@.skip(from as int), seq![c]) is None,
        },
{
    let mut k = from;
    while k < v.len() && v[k] != c
        invariant
            from <= k <= v@.len(),
            forall|j: int| from <= j < k ==> v@[j] != c,
        decreases v@.len() - k,
    {
        k = k + 1;
    }
    proof {
        let rest = v@.skip(from as int);
        assert forall|j: int| 0 <= j < k - from implies rest[j] != c by {
            assert(rest[j] == v@[from + j]);
        }
        if k < v@.len() {
            assert(rest[k - from] == v@[k as int]);
        }
        lemma_find_char(rest, c, k - from);
    }
    if k < v.len() {
        Some(k)
    } else {
        None
    }
}

/// What follows a text does not change where a needle is first found in it.
pub proof fn lemma_find_in_prefix(h: Seq<char>, p: Seq<char>, n: Seq<char>)
    requires
        find(h, n) is Some,
    ensures
        find(h + p, n) == find(h, n),
{
    lemma_find_from_found(h, n, 0);
    let k = find(h, n)->0;
    lemma_find_from_prefix(h, p, n, k, 0);
}

proof fn lemma_find_from_prefix(h: Seq<char>, p: Seq<char>, n: Seq<char>, k: int, i: int)
    requires
        0 <= i <= k,
        occurs_at(h, n, k),
    ensures
        find_from(h + p, n, i) == find_from(h, n, i),
    decreases k - i,
{
    assert((h + p).subrange(i, i + n.len()) =~= h.subrange(i, i + n.len()));
    if !occurs_at(h, n, i) {
        if i < k {
            lemma_find_from_prefix(h, p, n, k, i + 1);
        }
    }
}

/// `s` up to its first `c`, or all of `s`.
pub fn before_char_exec(s: &[char], c: char) -> (r: Vec<char>)
    ensures
        r@ == before_char(s@, c),
{
    let needle = vec![c];
    assert(needle@ =~= seq![c]);
    let end = match find_exec(s, needle.as_slice()) {
        Some(i) => {
            proof {
                let k = i as int;
                assert(find_from(s@, seq![c], 0) == Some(k));
                lemma_find_from_found(s@, seq![c], 0);
            }
            i
        },
        None => s.len(),
    };
    let mut r: Vec<char> = Vec::new();
    let mut j: usize = 0;
    while j < end
        invariant
            end <= s@.len(),
            j <= end,
            r@ == s@.take(j as int),
        decreases end - j,
    {
        r.push(s[j]);
        j = j + 1;
        assert(r@ =~= s@.take(j as int));
    }
    assert(s@.take(s@.len() as int) =~= s@);
    r
}

/// A found index lies inside the searched text.
pub proof fn lemma_find_from_found(h: Seq<char>, n: Seq<char>, i: int)
    ensures
        find_from(h, n, i) matches Some(k) ==> i <= k && occurs_at(h, n, k),
    decreases h.len() + 1 - i,
{
    if i < 0 || i + n.len() > h.len() {
    } else if occurs_at(h, n, i) {
    } else {
        lemma_find_from_found(h, n, i + 1);
    }
}

/// `s` with every occurrence of the non-empty `p` taken out.
pub fn remove_all_exec(s: &[char], p: &[char]) -> (r: Vec<char>)
    requires
        p@.len() > 0,
    ensures
        r@ == remove_all(s@, p@),
{
    let mut r: Vec<char> = Vec::new();
    let mut i: usize = 0;
    assert(s@.skip(0) =~= s@);
    while i < s.len()
        invariant
            p@.len() > 0,
            i <= s@.len(),
            remove_all(s@, p@) == r@ + remove_all(s@.skip(i as int), p@),
        decreases s@.len() - i,
    {
        let ghost rest = s@.skip(i as int);
        if occurs_at_exec(s, p, i) {
            assert(rest.subrange(0, p@.len() as int) =~= s@.subrange(i as int, i + p@.len()));
            assert(rest.skip(p@.len() as int) =~= s@.skip(i + p@.len()));
            i = i + p.len();
        } else {
            assert(!occurs_at(rest, p@, 0)) by {
                if p@.len() <= rest.len() {
                    assert(rest.subrange(0, p@.len() as int) =~= s@.subrange(
                        i as int,
                        i + p@.len(),
                    ));
                }
            }
            assert(rest.drop_first() =~= s@.skip(i + 1));
            r.push(s[i]);
            i = i + 1;
            assert(r@ + remove_all(s@.skip(i as int), p@) =~= (r@.drop_last() + seq![rest[0]])
                + remove_all(rest.drop_first(), p@));
        }
    }
    assert(s@.skip(s@.len() as int) =~= Seq::<char>::empty());
    assert(r@ + Seq::<char>::empty() =~= r@);
    r
}

// ---------------------------------------------------------------------------
// Decimal numbers
// ---------------------------------------------------------------------------

/// The decimal digit for `d`, where `0 <= d < 10`.
pub open spec fn digit_char(d: int) -> char {
    if d == 0 {
        '0'
    } else if d == 1 {
        '1'
    } else if d == 2 {
        '2'
    } else if d == 3 {
        '3'
    } else if d == 4 {
        '4'
    } else if d == 5 {
        '5'
    } else if d == 6 {
        '6'
    } else if d == 7 {
        '7'
    } else if d == 8 {
        '8'
    } else {
        '9'
    }
}

/// The decimal notation of `n`, without leading zeros, as `Display` writes it.
pub open spec fn decimal(n: nat) -> Seq<char>
    decreases n,
{
    if n < 10 {
        seq![digit_char(n as int)]
    } else {
        decimal(n / 10).push(digit_char((n % 10) as int))
    }
}

fn digit_char_exec(d: u64) -> (c: char)
    requires
        d < 10,
    ensures
        c == digit_char(d as int),
{
    if d == 0 {
        '0'
    } else if d == 1 {
        '1'
    } else if d == 2 {
        '2'
    } else if d == 3 {
        '3'
    } else if d == 4 {
        '4'
    } else if d == 5 {
        '5'
    } else if d == 6 {
        '6'
    } else if d == 7 {
        '7'
    } else if d == 8 {
        '8'
    } else {
        '9'
    }
}

/// Appends the decimal notation of `n` to `s`.
pub fn push_decimal(s: &mut String, n: u64)
    ensures
        final(s)@ == old(s)@ + decimal(n as nat),
    decreases n,
{
    if n >= 10 {
        push_decimal(s, n / 10);
    }
    push_char(s, digit_char_exec(n % 10));
    assert(final(s)@ =~= old(s)@ + decimal(n as nat));
}

/// A decimal digit.
pub open spec fn is_digit(c: char) -> bool {
    '0' <= c && c <= '9'
}

/// The value of the digit `c`.
pub open spec fn digit_value(c: char) -> int {
    c as int - '0' as int
}

/// The value of the decimal digits `s` (zero for no digits).
pub open spec fn digits_value(s: Seq<char>) -> nat
    decreases s.len(),
{
    if s.len() == 0 {
        0
    } else {
        (digits_value(s.drop_last()) * 10 + digit_value(s.last())) as nat
    }
}

/// `s` without one leading `+`.
pub open spec fn unsigned_digits(s: Seq<char>) -> Seq<char> {
    if s.len() > 0 && s[0] == '+' {
        s.drop_first()
    } else {
        s
    }
}

/// What parsing `s` as an unsigned integer no larger than `max` gives, as
/// `u16::from_str` and `u8::from_str` do: an optional `+`, then at least one
/// decimal digit and nothing else, and a value that fits.
pub open spec fn parse_unsigned(s: Seq<char>, max: nat) -> Option<nat> {
    if unsigned_digits(s).len() > 0 && all_digits(unsigned_digits(s)) && digits_value(
        unsigned_digits(s),
    ) <= max {
        Some(digits_value(unsigned_digits(s)))
    } else {
        None
    }
}

/// Every character of `s` is a decimal digit.
pub open spec fn all_digits(s: Seq<char>) -> bool {
    forall|i: int| 0 <= i < s.len() ==> is_digit(#[trigger] s[i])
}

/// Digits only ever add to a value.
proof fn lemma_digits_value_grows(s: Seq<char>, k: int)
    requires
        0 <= k <= s.len(),
        forall|i: int| 0 <= i < s.len() ==> is_digit(#[trigger] s[i]),
    ensures
        digits_value(s.take(k)) <= digits_value(s),
    decreases s.len() - k,
{
    if k < s.len() {
        let t = s.take(k + 1);
        assert(t.drop_last() =~= s.take(k));
        assert(is_digit(s[k]));
        assert(t.last() == s[k]);
        assert(digits_value(t) >= digits_value(s.take(k))) by (nonlinear_arith)
            requires
                digits_value(t) == digits_value(s.take(k)) * 10 + digit_value(t.last()),
                digit_value(t.last()) >= 0,
        ;
        lemma_digits_value_grows(s, k + 1);
    } else {
        assert(s.take(k) =~= s);
    }
}

/// Parses `s` as an unsigned integer no larger than `max`.
pub fn parse_unsigned_exec(s: &str, max: u64) -> (r: Option<u64>)
    requires
        max <= u32::MAX,
    ensures
        match r {
            Some(v) => parse_unsigned(s@, max as nat) == Some(v as nat),
            None => parse_unsigned(s@, max as nat) is None,
        },
{
    let all = chars_of(s);
    let start: usize = if all.len() > 0 && all[0] == '+' { 1 } else { 0 };
    let ghost d = unsigned_digits(s@);
    assert(d =~= all@.skip(start as int));
    if start >= all.len() {
        return None;
    }
    let mut i: usize = start;
    while i < all.len()
        invariant
            start <= i <= all@.len(),
            all@ == s@,
            d == unsigned_digits(s@),
            d == all@.skip(start as int),
            forall|j: int| 0 <= j < i - start ==> is_digit(#[trigger] d[j]),
        decreases all@.len() - i,
    {
        if !('0' <= all[i] && all[i] <= '9') {
            assert(d[i - start] == all@[i as int]);
            assert(!is_digit(d[i - start]));
            assert(0 <= i - start < d.len());
            assert(!all_digits(d));
            return None;
        }
        i = i + 1;
    }
    let mut v: u64 = 0;
    let mut j: usize = start;
    while j < all.len()
        invariant
            start <= j <= all@.len(),
            all@ == s@,
            d == unsigned_digits(s@),
            d == all@.skip(start as int),
            d.len() == all@.len() - start,
            forall|k: int| 0 <= k < d.len() ==> is_digit(#[trigger] d[k]),
            max <= u32::MAX,
            v <= max,
            v == digits_value(d.take(j - start)),
        decreases all@.len() - j,
    {
        let c = all[j];
        let ghost k = j - start;
        assert(d[k] == c);
        let dv = (c as u32 - '0' as u32) as u64;
        assert(d.take(k + 1).drop_last() =~= d.take(k));
        assert(d.take(k + 1).last() == c);
        if dv > max || v > (max - dv) / 10 {
            proof {
                assert(v * 10 + dv > max) by (nonlinear_arith)
                    requires
                        dv > max || v > (max - dv) / 10,
                        v >= 0,
                        dv >= 0,
                ;
                lemma_digits_value_grows(d, k + 1);
                assert(digit_value(c) == dv);
                assert(digits_value(d.take(k + 1)) == v * 10 + dv);
                assert(digits_value(d) > max);
            }
            return None;
        }
        assert(v * 10 + dv <= max) by (nonlinear_arith)
            requires
                v <= (max - dv) / 10,
                dv <= max,
        ;
        v = v * 10 + dv;
        j = j + 1;
    }
    assert(d.take(d.len() as int) =~= d);
    Some(v)
}

} // verus!
