//! Text helpers shared by the command filter and the palette session:
//! specifications of whitespace trimming and character-prefix truncation,
//! and the verified string operations built on them.

use vstd::prelude::*;

verus! {

/// The Unicode `White_Space` property: the characters `char::is_whitespace`
/// and `str::trim` treat as whitespace.
pub open spec fn is_white_space(c: char) -> bool {
    let u = c as u32;
    ||| 0x9 <= u <= 0xD
    ||| u == 0x20
    ||| u == 0x85
    ||| u == 0xA0
    ||| u == 0x1680
    ||| 0x2000 <= u <= 0x200A
    ||| u == 0x2028
    ||| u == 0x2029
    ||| u == 0x202F
    ||| u == 0x205F
    ||| u == 0x3000
}

/// `s` without its leading whitespace.
pub open spec fn trim_start(s: Seq<char>) -> Seq<char>
    decreases s.len(),
{
    if s.len() > 0 && is_white_space(s[0]) {
        trim_start(s.drop_first())
    } else {
        s
    }
}

/// `s` without its trailing whitespace.
pub open spec fn trim_end(s: Seq<char>) -> Seq<char>
    decreases s.len(),
{
    if s.len() > 0 && is_white_space(s.last()) {
        trim_end(s.drop_last())
    } else {
        s
    }
}

/// `s` without leading and trailing whitespace.
pub open spec fn trim(s: Seq<char>) -> Seq<char> {
    trim_end(trim_start(s))
}

/// The first `n` characters of `s` (all of `s` when it is shorter).
pub open spec fn take_chars(s: Seq<char>, n: nat) -> Seq<char> {
    if s.len() <= n {
        s
    } else {
        s.take(n as int)
    }
}

/// Whether `c` is Unicode whitespace (`White_Space`), as `char::is_whitespace`.
pub fn is_white_space_char(c: char) -> (r: bool)
    ensures
        r == is_white_space(c),
{
    let u = c as u32;
    (0x9 <= u && u <= 0xD) || u == 0x20 || u == 0x85 || u == 0xA0 || u == 0x1680 || (0x2000 <= u
        && u <= 0x200A) || u == 0x2028 || u == 0x2029 || u == 0x202F || u == 0x205F || u == 0x3000
}

/// The slice of `s` without leading and trailing Unicode whitespace
/// (`str::trim`).
pub fn str_trim(s: &str) -> (r: &str)
    ensures
        r@ == trim(s@),
{
    let len = s.unicode_len();
    let mut start: usize = 0;
    assert(s@.subrange(0, len as int) =~= s@);
    while start < len && is_white_space_char(s.get_char(start))
        invariant
            start <= len,
            len == s@.len(),
            trim_start(s@) == trim_start(s@.subrange(start as int, len as int)),
        decreases len - start,
    {
        proof {
            let rest = s@.subrange(start as int, len as int);
            assert(rest.drop_first() =~= s@.subrange(start + 1, len as int));
        }
        start = start + 1;
    }
    proof {
        let rest = s@.subrange(start as int, len as int);
        if start == len {
            assert(rest.len() == 0);
        }
        assert(trim_start(rest) == rest);
    }
    let mut end: usize = len;
    while end > start && is_white_space_char(s.get_char(end - 1))
        invariant
            start <= end <= len,
            len == s@.len(),
            trim_start(s@) == s@.subrange(start as int, len as int),
            trim_end(s@.subrange(start as int, len as int)) == trim_end(
                s@.subrange(start as int, end as int),
            ),
        decreases end - start,
    {
        proof {
            let mid = s@.subrange(start as int, end as int);
            assert(mid.drop_last() =~= s@.subrange(start as int, end - 1));
        }
        end = end - 1;
    }
    proof {
        let mid = s@.subrange(start as int, end as int);
        if end == start {
            assert(mid.len() == 0);
        }
        assert(trim_end(mid) == mid);
    }
    s.substring_char(start, end)
}

/// Whether two string slices hold the same characters (`==` on `str`).
pub fn str_eq(a: &str, b: &str) -> (r: bool)
    ensures
        r == (a@ == b@),
{
    let n = a.unicode_len();
    if n != b.unicode_len() {
        return false;
    }
    let mut i: usize = 0;
    while i < n
        invariant
            i <= n,
            n == a@.len(),
            n == b@.len(),
            forall|k: int| 0 <= k < i ==> a@[k] == b@[k],
        decreases n - i,
    {
        if a.get_char(i) != b.get_char(i) {
            return false;
        }
        i = i + 1;
    }
    assert(a@ =~= b@);
    true
}

/// The first `n` characters of `s` as an owned string (`s.chars().take(n)`).
pub fn take_chars_string(s: &str, n: usize) -> (r: String)
    ensures
        r@ == take_chars(s@, n as nat),
{
    let len = s.unicode_len();
    let m = if len <= n { len } else { n };
    let part = s.substring_char(0, m);
    proof {
        if len <= n {
            assert(s@.subrange(0, m as int) =~= s@);
        }
    }
    String::from_str(part)
}

} // verus!
