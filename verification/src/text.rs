//! Character-level text operations used on serial lines: whitespace
//! trimming, substring search and splitting, and command framing.

use vstd::prelude::*;
use vstd::string::StrSliceExecFns;

verus! {

/// Unicode `White_Space` property, the set that `char::is_whitespace` uses.
pub open spec fn white_space(c: char) -> bool {
    let u = c as u32;
    ||| 0x9 <= u <= 0xD
    ||| u == 0x20
    ||| u == 0x85
    ||| u == 0xA0
    ||| u == 0x1680
    ||| 0x2000 <= u <= 0x200A
    ||| u == 0x2028
    ||| u == 0x2029
    ||| u == 0x202F
    ||| u == 0x205F
    ||| u == 0x3000
}

/// First index at or after `i` that holds no whitespace (or the length).
pub open spec fn skip_white_from(s: Seq<char>, i: int) -> int
    decreases s.len() - i,
{
    if 0 <= i < s.len() && white_space(s[i]) {
        skip_white_from(s, i + 1)
    } else {
        i
    }
}

/// Smallest `j' <= j`, not below `lo`, such that `s[j'..j]` is all whitespace.
pub open spec fn drop_white_before(s: Seq<char>, lo: int, j: int) -> int
    decreases j - lo,
{
    if lo < j && white_space(s[j - 1]) {
        drop_white_before(s, lo, j - 1)
    } else {
        j
    }
}

/// Index where the trimmed text starts.
pub open spec fn trim_start(s: Seq<char>) -> int {
    skip_white_from(s, 0)
}

/// Index where the trimmed text ends.
pub open spec fn trim_end(s: Seq<char>) -> int {
    drop_white_before(s, trim_start(s), s.len() as int)
}

/// `s` without leading and trailing whitespace.
pub open spec fn trimmed(s: Seq<char>) -> Seq<char> {
    s.subrange(trim_start(s), trim_end(s))
}

/// `key` occurs in `s` at position `i`.
pub open spec fn occurs_at(s: Seq<char>, key: Seq<char>, i: int) -> bool {
    &&& 0 <= i
    &&& i + key.len() <= s.len()
    &&& s.subrange(i, i + key.len()) == key
}

/// First position at or after `i` where `key` occurs in `s`.
pub open spec fn find_from(s: Seq<char>, key: Seq<char>, i: int) -> Option<int>
    decreases s.len() + 1 - i,
{
    if i < 0 || i + key.len() > s.len() {
        None
    } else if occurs_at(s, key, i) {
        Some(i)
    } else {
        find_from(s, key, i + 1)
    }
}

/// First position where `key` occurs in `s`.
pub open spec fn find_first(s: Seq<char>, key: Seq<char>) -> Option<int> {
    find_from(s, key, 0)
}

/// The text before and after the first occurrence of `key` in `s`.
pub open spec fn split_once_at(s: Seq<char>, key: Seq<char>) -> Option<(Seq<char>, Seq<char>)> {
    match find_first(s, key) {
        Some(i) => Some((s.take(i), s.skip(i + key.len()))),
        None => None,
    }
}

/// What `find_from` returns: the first occurrence at or after `i`, or
/// `None` when `key` does not occur there.
pub proof fn lemma_find_from(s: Seq<char>, key: Seq<char>, i: int)
    requires
        0 <= i,
    ensures
        match find_from(s, key, i) {
            Some(j) => {
                &&& i <= j
                &&& occurs_at(s, key, j)
                &&& forall|m: int| i <= m < j ==> !occurs_at(s, key, m)
            },
            None => forall|m: int| i <= m ==> !occurs_at(s, key, m),
        },
    decreases s.len() + 1 - i,
{
    if i + key.len() > s.len() {
    } else if occurs_at(s, key, i) {
    } else {
        lemma_find_from(s, key, i + 1);
    }
}

/// Whether `c` is a whitespace character.
pub fn is_white_space(c: char) -> (b: bool)
    ensures
        b == white_space(c),
{
    let u = c as u32;
    (0x9 <= u && u <= 0xD) || u == 0x20 || u == 0x85 || u == 0xA0 || u == 0x1680 || (0x2000 <= u
        && u <= 0x200A) || u == 0x2028 || u == 0x2029 || u == 0x202F || u == 0x205F || u == 0x3000
}

/// The characters of `s`, in order.
pub fn chars_of(s: &str) -> (v: Vec<char>)
    ensures
        v@ == s@,
{
    let mut v: Vec<char> = Vec::new();
    for c in it: s.chars()
        invariant
            v@ == it.seq().take(it.index() as int),
            it.seq() == s@,
    {
        v.push(c);
    }
    v
}

/// Start and end of the trimmed part of `v`.
fn trim_bounds(v: &Vec<char>) -> (r: (usize, usize))
    ensures
        r.0 == trim_start(v@),
        r.1 == trim_end(v@),
        r.0 <= r.1 <= v@.len(),
{
    let n = v.len();
    let mut i: usize = 0;
    while i < n && is_white_space(v[i])
        invariant
            i <= n == v@.len(),
            skip_white_from(v@, i as int) == skip_white_from(v@, 0),
        decreases n - i,
    {
        i = i + 1;
    }
    let mut j: usize = n;
    while j > i && is_white_space(v[j - 1])
        invariant
            i <= j <= n == v@.len(),
            i == trim_start(v@),
            drop_white_before(v@, i as int, j as int) == drop_white_before(v@, i as int, n as int),
        decreases j,
    {
        j = j - 1;
    }
    (i, j)
}

/// `s` with leading and trailing whitespace removed (as `str::trim` does).
pub fn trim(s: &str) -> (r: String)
    ensures
        r@ == trimmed(s@),
{
    let v = chars_of(s);
    let (i, j) = trim_bounds(&v);
    s.substring_char(i, j).to_owned()
}

/// Whether `key` occurs in `s` at position `i`.
fn occurs_at_exec(s: &Vec<char>, key: &Vec<char>, i: usize) -> (b: bool)
    requires
        i + key@.len() <= s@.len(),
    ensures
        b == occurs_at(s@, key@, i as int),
{
    let k = key.len();
    let n = s.len();
    let mut j: usize = 0;
    while j < k
        invariant
            j <= k == key@.len(),
            n == s@.len(),
            i + k <= n,
            forall|m: int| 0 <= m < j ==> s@[i + m] == key@[m],
        decreases k - j,
    {
        if s[i + j] != key[j] {
            assert(s@.subrange(i as int, i + k)[j as int] != key@[j as int]);
            return false;
        }
        j = j + 1;
    }
    assert(s@.subrange(i as int, i + k) =~= key@);
    true
}

/// First position where `key` occurs in `s`, if any.
pub fn find_in(s: &Vec<char>, key: &Vec<char>) -> (r: Option<usize>)
    ensures
        match r {
            Some(i) => find_first(s@, key@) == Some(i as int),
            None => find_first(s@, key@) is None,
        },
{
    let n = s.len();
    let k = key.len();
    if k > n {
        return None;
    }
    let mut i: usize = 0;
    while i <= n - k
        invariant
            k <= n,
            n == s@.len(),
            k == key@.len(),
            find_from(s@, key@, i as int) == find_first(s@, key@),
        decreases n - k + 1 - i,
    {
        if occurs_at_exec(s, key, i) {
            return Some(i);
        }
        if i == n - k {
            assert(find_from(s@, key@, i + 1) is None);
            return None;
        }
        i = i + 1;
    }
    None
}

/// The text before and after the first occurrence of `key` in `s`
/// (as `str::split_once` does with a string pattern).
pub fn split_once(s: &str, key: &str) -> (r: Option<(String, String)>)
    ensures
        match split_once_at(s@, key@) {
            Some((before, after)) => r matches Some(p) && p.0@ == before && p.1@ == after,
            None => r is None,
        },
{
    let v = chars_of(s);
    let kv = chars_of(key);
    proof {
        lemma_find_from(s@, key@, 0);
    }
    match find_in(&v, &kv) {
        Some(i) => {
            assert(occurs_at(s@, key@, i as int));
            let before = s.substring_char(0, i).to_owned();
            let n = v.len();
            let k = kv.len();
            assert(i + k <= n);
            let after = s.substring_char(i + k, n).to_owned();
            Some((before, after))
        },
        None => None,
    }
}

/// A command as it is written to the port: its text followed by CR LF.
pub fn frame_command(command: &str) -> (r: String)
    ensures
        r@ == command@ + seq!['\r', '\n'],
{
    let mut r = command.to_owned();
    proof {
        reveal_strlit("\r\n");
    }
    r.append("\r\n");
    r
}

} // verus!
