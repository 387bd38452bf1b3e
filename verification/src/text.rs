//! Path and text algebra on plain strings.
//!
//! Paths are modelled as strings with `/` as the separator. The functions
//! here give the library its notions of file name, file stem, extension
//! and path joining, each pinned by a spec function over character
//! sequences.

use vstd::prelude::*;
use vstd::string::StrSliceExecFns;
use vstd::string::StringExecFns;

verus! {

/// The suffix of `s` after the last occurrence of `c`; all of `s` when `c`
/// does not occur; empty when `s` ends with `c`.
pub open spec fn spec_suffix_after_last(s: Seq<char>, c: char) -> Seq<char>
    decreases s.len(),
{
    if s.len() == 0 {
        Seq::<char>::empty()
    } else if s.last() == c {
        Seq::<char>::empty()
    } else {
        spec_suffix_after_last(s.drop_last(), c).push(s.last())
    }
}

/// The file name of a path: everything after the last `/`.
pub open spec fn spec_file_name(path: Seq<char>) -> Seq<char> {
    spec_suffix_after_last(path, '/')
}

/// The index of the last `.` in a file name, provided it is preceded by at
/// least one character; `-1` when there is none. A leading dot alone does
/// not begin an extension.
pub open spec fn spec_last_dot(name: Seq<char>) -> int
    decreases name.len(),
{
    if name.len() <= 1 {
        -1
    } else if name.last() == '.' {
        name.len() - 1
    } else {
        spec_last_dot(name.drop_last())
    }
}

/// The stem of a file name: the part before the last `.`, or the whole
/// name when it has no extension.
pub open spec fn spec_stem_of_name(name: Seq<char>) -> Seq<char> {
    let d = spec_last_dot(name);
    if d < 0 {
        name
    } else {
        name.take(d)
    }
}

/// The extension of a file name, empty when it has none.
pub open spec fn spec_ext_of_name(name: Seq<char>) -> Seq<char> {
    let d = spec_last_dot(name);
    if d < 0 {
        Seq::<char>::empty()
    } else {
        name.skip(d + 1)
    }
}

/// The stem of a path's file name.
pub open spec fn spec_path_stem(path: Seq<char>) -> Seq<char> {
    spec_stem_of_name(spec_file_name(path))
}

/// The extension of a path's file name, empty when it has none.
pub open spec fn spec_path_extension(path: Seq<char>) -> Seq<char> {
    spec_ext_of_name(spec_file_name(path))
}

/// Joining a relative component onto a directory path.
pub open spec fn spec_join(a: Seq<char>, b: Seq<char>) -> Seq<char> {
    if a.len() > 0 && a.last() == '/' {
        a + b
    } else {
        a + seq!['/'] + b
    }
}

/// The path with its file name's extension replaced by `ext` (appended
/// when the file name has none).
pub open spec fn spec_with_extension(path: Seq<char>, ext: Seq<char>) -> Seq<char> {
    path.take(path.len() - spec_file_name(path).len()) + spec_stem_of_name(spec_file_name(path))
        + seq!['.'] + ext
}

/// The views of a sequence of strings.
pub open spec fn spec_string_views(ss: Seq<String>) -> Seq<Seq<char>> {
    ss.map_values(|s: String| s@)
}

/// Whitespace for the purposes of trimming command output.
pub open spec fn spec_is_ws(c: char) -> bool {
    c == ' ' || c == '\n' || c == '\r' || c == '\t'
}

/// `s` with leading and trailing whitespace removed.
pub open spec fn spec_trim(s: Seq<char>) -> Seq<char>
    decreases s.len(),
{
    if s.len() == 0 {
        s
    } else if spec_is_ws(s[0]) {
        spec_trim(s.skip(1))
    } else if spec_is_ws(s.last()) {
        spec_trim(s.drop_last())
    } else {
        s
    }
}

proof fn lemma_suffix_after_last_len(s: Seq<char>, c: char)
    ensures
        spec_suffix_after_last(s, c).len() <= s.len(),
    decreases s.len(),
{
    if s.len() > 0 && s.last() != c {
        lemma_suffix_after_last_len(s.drop_last(), c);
    }
}

proof fn lemma_last_dot_range(name: Seq<char>)
    ensures
        -1 <= spec_last_dot(name) < name.len(),
        spec_last_dot(name) >= 0 ==> name.len() >= 2 && 1 <= spec_last_dot(name),
    decreases name.len(),
{
    if name.len() > 1 && name.last() != '.' {
        lemma_last_dot_range(name.drop_last());
    }
}

/// Everything after the last `/` of `path`, as `spec_file_name` gives it.
pub fn file_name(path: &str) -> (r: String)
    ensures
        r@ == spec_file_name(path@),
{
    let n: usize = path.unicode_len();
    let mut start: usize = 0;
    let mut i: usize = 0;
    while i < n
        invariant
            n == path@.len(),
            0 <= start <= i <= n,
            spec_suffix_after_last(path@.take(i as int), '/') =~= path@.take(i as int).skip(
                start as int,
            ),
        decreases n - i,
    {
        let c = path.get_char(i);
        proof {
            assert(path@.take(i + 1).drop_last() =~= path@.take(i as int));
            assert(path@.take(i + 1).last() == path@[i as int]);
        }
        if c == '/' {
            start = i + 1;
        }
        proof {
            assert(spec_suffix_after_last(path@.take(i + 1), '/') =~= path@.take(i + 1).skip(
                start as int,
            ));
        }
        i = i + 1;
    }
    proof {
        assert(path@.take(n as int) =~= path@);
    }
    let r = path.substring_char(start, n);
    proof {
        assert(r@ =~= spec_file_name(path@));
    }
    r.to_owned()
}

/// The index of the last dot of a file name that begins an extension, as
/// `spec_last_dot` gives it.
fn last_dot(name: &str) -> (r: Option<usize>)
    ensures
        match r {
            Some(d) => spec_last_dot(name@) == d as int,
            None => spec_last_dot(name@) == -1,
        },
{
    let n: usize = name.unicode_len();
    let mut d: Option<usize> = None;
    let mut i: usize = 0;
    while i < n
        invariant
            n == name@.len(),
            0 <= i <= n,
            match d {
                Some(k) => spec_last_dot(name@.take(i as int)) == k as int,
                None => spec_last_dot(name@.take(i as int)) == -1,
            },
        decreases n - i,
    {
        let c = name.get_char(i);
        proof {
            assert(name@.take(i + 1).drop_last() =~= name@.take(i as int));
            assert(name@.take(i + 1).last() == name@[i as int]);
        }
        if i >= 1 && c == '.' {
            d = Some(i);
        }
        i = i + 1;
    }
    proof {
        assert(name@.take(n as int) =~= name@);
    }
    d
}

/// The stem of the path's file name, as `spec_path_stem` gives it.
pub fn file_stem(path: &str) -> (r: String)
    ensures
        r@ == spec_path_stem(path@),
{
    let name = file_name(path);
    proof {
        lemma_last_dot_range(name@);
    }
    match last_dot(name.as_str()) {
        Some(d) => {
            let r = name.as_str().substring_char(0, d);
            proof {
                assert(r@ =~= spec_path_stem(path@));
            }
            r.to_owned()
        },
        None => name,
    }
}

/// The extension of the path's file name, empty when it has none, as
/// `spec_path_extension` gives it.
pub fn extension(path: &str) -> (r: String)
    ensures
        r@ == spec_path_extension(path@),
{
    let name = file_name(path);
    let n: usize = name.as_str().unicode_len();
    proof {
        lemma_last_dot_range(name@);
    }
    match last_dot(name.as_str()) {
        Some(d) => {
            let r = name.as_str().substring_char(d + 1, n);
            proof {
                assert(r@ =~= spec_path_extension(path@));
            }
            r.to_owned()
        },
        None => {
            let r = String::new();
            proof {
                assert(r@ =~= spec_path_extension(path@));
            }
            r
        },
    }
}

/// Joins a relative component onto a directory path, as `spec_join` gives
/// it.
pub fn join(a: &str, b: &str) -> (r: String)
    ensures
        r@ == spec_join(a@, b@),
{
    let n: usize = a.unicode_len();
    proof {
        reveal_strlit("/");
        assert("/"@ =~= seq!['/']);
    }
    if n > 0 && a.get_char(n - 1) == '/' {
        let r = a.to_owned().concat(b);
        proof {
            assert(r@ =~= spec_join(a@, b@));
        }
        r
    } else {
        let r = a.to_owned().concat("/").concat(b);
        proof {
            assert(r@ =~= spec_join(a@, b@));
        }
        r
    }
}

/// The path with its file name's extension replaced by `ext`, as
/// `spec_with_extension` gives it.
pub fn with_extension(path: &str, ext: &str) -> (r: String)
    ensures
        r@ == spec_with_extension(path@, ext@),
{
    let n: usize = path.unicode_len();
    let name = file_name(path);
    let stem = file_stem(path);
    proof {
        lemma_suffix_after_last_len(path@, '/');
        reveal_strlit(".");
        assert("."@ =~= seq!['.']);
    }
    let prefix = path.substring_char(0, n - name.as_str().unicode_len());
    let r = prefix.to_owned().concat(stem.as_str()).concat(".").concat(ext);
    proof {
        assert(prefix@ =~= path@.take(path@.len() - spec_file_name(path@).len()));
        assert(r@ =~= spec_with_extension(path@, ext@));
    }
    r
}

/// Whether the character at position `i` of `s` is whitespace.
fn ws_at(s: &str, i: usize) -> (b: bool)
    requires
        i < s@.len(),
    ensures
        b == spec_is_ws(s@[i as int]),
{
    let c = s.get_char(i);
    c == ' ' || c == '\n' || c == '\r' || c == '\t'
}

/// `s` with leading and trailing whitespace removed, as `spec_trim` gives
/// it.
pub fn trim(s: &str) -> (r: String)
    ensures
        r@ == spec_trim(s@),
{
    let n: usize = s.unicode_len();
    let mut lo: usize = 0;
    proof {
        assert(s@.skip(0) =~= s@);
    }
    while lo < n && ws_at(s, lo)
        invariant
            n == s@.len(),
            0 <= lo <= n,
            spec_trim(s@) == spec_trim(s@.skip(lo as int)),
        decreases n - lo,
    {
        proof {
            assert(s@.skip(lo as int)[0] == s@[lo as int]);
            assert(s@.skip(lo as int).skip(1) =~= s@.skip(lo + 1));
        }
        lo = lo + 1;
    }
    let mut hi: usize = n;
    proof {
        assert(s@.subrange(lo as int, n as int) =~= s@.skip(lo as int));
    }
    while hi > lo && ws_at(s, hi - 1)
        invariant
            n == s@.len(),
            0 <= lo <= hi <= n,
            lo < n ==> !spec_is_ws(s@[lo as int]),
            spec_trim(s@) == spec_trim(s@.subrange(lo as int, hi as int)),
        decreases hi - lo,
    {
        proof {
            let t = s@.subrange(lo as int, hi as int);
            assert(t[0] == s@[lo as int]);
            assert(t.last() == s@[hi - 1]);
            assert(t.drop_last() =~= s@.subrange(lo as int, hi - 1));
        }
        hi = hi - 1;
    }
    let r = s.substring_char(lo, hi);
    proof {
        let t = s@.subrange(lo as int, hi as int);
        if t.len() == 0 {
            assert(spec_trim(t) =~= t);
        } else {
            assert(t[0] == s@[lo as int]);
            assert(t.last() == s@[hi - 1]);
            assert(spec_trim(t) == t);
        }
    }
    r.to_owned()
}

} // verus!
