//! The parts of a file path that `std::path::Path` reports on Unix:
//! `file_name`, `file_stem` and `extension`.

use vstd::prelude::*;

use crate::text::{chars_of, string_of, string_of_range};

verus! {

/// The index of the last `c` in `s`.
pub open spec fn last_index_of(s: Seq<char>, c: char) -> Option<int>
    decreases s.len(),
{
    if s.len() == 0 {
        None
    } else if s.last() == c {
        Some(s.len() - 1)
    } else {
        last_index_of(s.drop_last(), c)
    }
}

/// `s` is the component `.`.
pub open spec fn is_cur_dir(s: Seq<char>) -> bool {
    s.len() == 1 && s[0] == '.'
}

/// `s` is the component `..`.
pub open spec fn is_parent_dir(s: Seq<char>) -> bool {
    s.len() == 2 && s[0] == '.' && s[1] == '.'
}

/// The final component of the path `p`, if it is a normal one: `Path::file_name`.
/// Empty segments and `.` segments are not components; a path that ends in
/// `..`, in the root or in nothing has no file name.
pub open spec fn file_name(p: Seq<char>) -> Option<Seq<char>>
    decreases p.len(),
{
    match last_index_of(p, '/') {
        None => if p.len() == 0 || is_cur_dir(p) || is_parent_dir(p) {
            None
        } else {
            Some(p)
        },
        Some(i) => {
            let seg = p.skip(i + 1);
            if seg.len() == 0 || is_cur_dir(seg) {
                proof {
                    lemma_last_index_of(p, '/');
                }
                file_name(p.take(i))
            } else if is_parent_dir(seg) {
                None
            } else {
                Some(seg)
            }
        },
    }
}

/// `Path::file_stem`: the file name up to its last `.`; the whole name when it
/// has no `.` or its only `.` comes first.
pub open spec fn file_stem(p: Seq<char>) -> Option<Seq<char>> {
    match file_name(p) {
        None => None,
        Some(n) => match last_index_of(n, '.') {
            Some(i) => if i == 0 {
                Some(n)
            } else {
                Some(n.take(i))
            },
            None => Some(n),
        },
    }
}

/// `Path::extension`: the file name after its last `.`, unless that `.` comes
/// first or there is none.
pub open spec fn extension(p: Seq<char>) -> Option<Seq<char>> {
    match file_name(p) {
        None => None,
        Some(n) => match last_index_of(n, '.') {
            Some(i) => if i == 0 {
                None
            } else {
                Some(n.skip(i + 1))
            },
            None => None,
        },
    }
}

/// Where the last occurrence of `c` in `s` lies.
pub proof fn lemma_last_index_of(s: Seq<char>, c: char)
    ensures
        last_index_of(s, c) matches Some(i) ==> 0 <= i < s.len() && s[i] == c && forall|j: int|
            i < j < s.len() ==> s[j] != c,
        last_index_of(s, c) is None ==> forall|j: int| 0 <= j < s.len() ==> s[j] != c,
    decreases s.len(),
{
    if s.len() > 0 && s.last() != c {
        let t = s.drop_last();
        lemma_last_index_of(t, c);
        assert(last_index_of(s, c) == last_index_of(t, c));
        if let Some(i) = last_index_of(t, c) {
            assert forall|j: int| i < j < s.len() implies s[j] != c by {
                if j < t.len() {
                    assert(t[j] == s[j]);
                }
            }
        } else {
            assert forall|j: int| 0 <= j < s.len() implies s[j] != c by {
                if j < t.len() {
                    assert(t[j] == s[j]);
                }
            }
        }
    }
}

/// The file name is the stem, then a `.` and the extension where there is
/// one; the extension holds no `.`; without an extension the stem is the
/// whole file name. Stem and extension exist exactly when the file name does.
pub proof fn lemma_stem_and_extension(p: Seq<char>)
    ensures
        file_name(p) is None ==> file_stem(p) is None && extension(p) is None,
        file_name(p) matches Some(n) ==> {
            &&& file_stem(p) matches Some(st)
            &&& match extension(p) {
                Some(e) => {
                    &&& n == st + seq!['.'] + e
                    &&& st.len() > 0
                    &&& forall|j: int| 0 <= j < e.len() ==> e[j] != '.'
                },
                None => st == n,
            }
        },
{
    if let Some(n) = file_name(p) {
        lemma_last_index_of(n, '.');
        if let Some(i) = last_index_of(n, '.') {
            if i != 0 {
                let st = n.take(i);
                let e = n.skip(i + 1);
                assert(n =~= st + seq!['.'] + e);
                assert forall|j: int| 0 <= j < e.len() implies e[j] != '.' by {
                    assert(e[j] == n[i + 1 + j]);
                }
            }
        }
    }
}

/// The index of the last `c` in `v[..end]`.
fn last_index_before(v: &[char], end: usize, c: char) -> (r: Option<usize>)
    requires
        end <= v@.len(),
    ensures
        match r {
            Some(i) => last_index_of(v@.take(end as int), c) == Some(i as int),
            None => last_index_of(v@.take(end as int), c) is None,
        },
        r matches Some(i) ==> i < end,
{
    proof {
        lemma_last_index_of(v@.take(end as int), c);
    }
    let mut k = end;
    while k > 0 && v[k - 1] != c
        invariant
            k <= end <= v@.len(),
            last_index_of(v@.take(end as int), c) == last_index_of(v@.take(k as int), c),
        decreases k,
    {
        assert(v@.take(k as int).drop_last() =~= v@.take(k - 1));
        k = k - 1;
    }
    if k == 0 {
        None
    } else {
        Some(k - 1)
    }
}

/// The characters of `v[from..to]`.
fn slice_chars(v: &[char], from: usize, to: usize) -> (r: Vec<char>)
    requires
        from <= to <= v@.len(),
    ensures
        r@ == v@.subrange(from as int, to as int),
{
    let mut r: Vec<char> = Vec::new();
    let mut i = from;
    while i < to
        invariant
            from <= i <= to <= v@.len(),
            r@ == v@.subrange(from as int, i as int),
        decreases to - i,
    {
        r.push(v[i]);
        i = i + 1;
        assert(r@ =~= v@.subrange(from as int, i as int));
    }
    r
}

fn is_cur_dir_exec(v: &[char]) -> (b: bool)
    ensures
        b == is_cur_dir(v@),
{
    v.len() == 1 && v[0] == '.'
}

fn is_parent_dir_exec(v: &[char]) -> (b: bool)
    ensures
        b == is_parent_dir(v@),
{
    v.len() == 2 && v[0] == '.' && v[1] == '.'
}

/// The file name of the path `p`.
pub fn path_file_name(p: &str) -> (r: Option<Vec<char>>)
    ensures
        match r {
            Some(n) => file_name(p@) == Some(n@),
            None => file_name(p@) is None,
        },
{
    let v = chars_of(p);
    let mut end = v.len();
    assert(v@.take(end as int) =~= v@);
    loop
        invariant
            end <= v@.len(),
            v@ == p@,
            file_name(p@) == file_name(v@.take(end as int)),
        decreases end,
    {
        let ghost q = v@.take(end as int);
        match last_index_before(v.as_slice(), end, '/') {
            None => {
                let seg = slice_chars(v.as_slice(), 0, end);
                assert(seg@ =~= q);
                if end == 0 || is_cur_dir_exec(seg.as_slice()) || is_parent_dir_exec(
                    seg.as_slice(),
                ) {
                    return None;
                }
                return Some(seg);
            },
            Some(i) => {
                let seg = slice_chars(v.as_slice(), i + 1, end);
                assert(seg@ =~= q.skip(i + 1));
                assert(q.take(i as int) =~= v@.take(i as int));
                if seg.len() == 0 || is_cur_dir_exec(seg.as_slice()) {
                    end = i;
                } else if is_parent_dir_exec(seg.as_slice()) {
                    return None;
                } else {
                    return Some(seg);
                }
            },
        }
    }
}

/// The stem of the file name of the path `p`.
pub fn path_file_stem(p: &str) -> (r: Option<String>)
    ensures
        match r {
            Some(s) => file_stem(p@) == Some(s@),
            None => file_stem(p@) is None,
        },
{
    match path_file_name(p) {
        None => None,
        Some(n) => {
            let len = n.len();
            assert(n@.take(len as int) =~= n@);
            match last_index_before(n.as_slice(), len, '.') {
                Some(i) => {
                    if i == 0 {
                        Some(string_of(n.as_slice()))
                    } else {
                        assert(n@.subrange(0, i as int) =~= n@.take(i as int));
                        Some(string_of_range(n.as_slice(), 0, i))
                    }
                },
                None => Some(string_of(n.as_slice())),
            }
        },
    }
}

/// The extension of the file name of the path `p`.
pub fn path_extension(p: &str) -> (r: Option<String>)
    ensures
        match r {
            Some(s) => extension(p@) == Some(s@),
            None => extension(p@) is None,
        },
{
    match path_file_name(p) {
        None => None,
        Some(n) => {
            let len = n.len();
            assert(n@.take(len as int) =~= n@);
            match last_index_before(n.as_slice(), len, '.') {
                Some(i) => {
                    if i == 0 {
                        None
                    } else {
                        assert(n@.subrange(i + 1, len as int) =~= n@.skip(i + 1));
                        Some(string_of_range(n.as_slice(), i + 1, len))
                    }
                },
                None => None,
            }
        },
    }
}

} // verus!
