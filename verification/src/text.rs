//! Small verified text utilities: string equality, whitespace trimming of
//! raw command output, and the decimal parse used for commit timestamps.

use vstd::prelude::*;
use vstd::string::*;

verus! {

/// Character-for-character string equality, usable on any `&str`.
pub fn str_eq(a: &str, b: &str) -> (r: bool)
    ensures
        r == (a@ == b@),
{
    let n = a.unicode_len();
    if n != b.unicode_len() {
        return false;
    }
    let mut i: usize = 0;
    while i < n
        invariant
            n == a@.len(),
            n == b@.len(),
            i <= n,
            forall|k: int| 0 <= k < i ==> a@[k] == b@[k],
        decreases n - i,
    {
        if a.get_char(i) != b.get_char(i) {
            return false;
        }
        i = i + 1;
    }
    proof {
        assert(a@ =~= b@);
    }
    true
}

/// The bytes that `str::trim` removes at either end of command output.
pub open spec fn is_ws(b: u8) -> bool {
    b == 9 || b == 10 || b == 11 || b == 12 || b == 13 || b == 32
}

/// The whitespace characters trimmed around configuration list items.
pub open spec fn is_space(c: char) -> bool {
    c == ' ' || c == '\t' || c == '\n' || c == '\r'
}

/// `s` without its leading elements satisfying `p`.
pub open spec fn trim_front<T>(s: Seq<T>, p: spec_fn(T) -> bool) -> Seq<T>
    decreases s.len(),
{
    if s.len() == 0 {
        s
    } else if p(s[0]) {
        trim_front(s.drop_first(), p)
    } else {
        s
    }
}

/// `s` without its trailing elements satisfying `p`.
pub open spec fn trim_back<T>(s: Seq<T>, p: spec_fn(T) -> bool) -> Seq<T>
    decreases s.len(),
{
    if s.len() == 0 {
        s
    } else if p(s.last()) {
        trim_back(s.drop_last(), p)
    } else {
        s
    }
}

/// `s` without whitespace bytes at either end.
pub open spec fn trim_spec(s: Seq<u8>) -> Seq<u8> {
    trim_front(trim_back(s, |b: u8| is_ws(b)), |b: u8| is_ws(b))
}

pub proof fn lemma_trim_back_take<T>(s: Seq<T>, p: spec_fn(T) -> bool, j: int)
    requires
        0 <= j <= s.len(),
        forall|k: int| j <= k < s.len() ==> p(s[k]),
        j > 0 ==> !p(s[j - 1]),
    ensures
        trim_back(s, p) == s.take(j),
    decreases s.len() - j,
{
    if j == s.len() {
        if s.len() == 0 {
            assert(s.take(j) =~= s);
        } else if p(s.last()) {
            lemma_trim_back_take(s.drop_last(), p, j - 1);
            assert(s.drop_last().take(j - 1) =~= s.take(j - 1));
            assert(s.take(j - 1) =~= s.take(j).drop_last());
            assert(s.take(j) =~= s);
            assert(trim_back(s, p) == trim_back(s.drop_last(), p));
            assert(s.drop_last() =~= s.take(j - 1));
        } else {
            assert(s.take(j) =~= s);
        }
    } else {
        assert(p(s.last()));
        lemma_trim_back_take(s.drop_last(), p, j);
        assert(s.drop_last().take(j) =~= s.take(j));
    }
}

pub proof fn lemma_trim_front_skip<T>(s: Seq<T>, p: spec_fn(T) -> bool, i: int)
    requires
        0 <= i <= s.len(),
        forall|k: int| 0 <= k < i ==> p(s[k]),
        i < s.len() ==> !p(s[i]),
    ensures
        trim_front(s, p) == s.skip(i),
    decreases i,
{
    if i == 0 {
        assert(s.skip(0) =~= s);
        if s.len() > 0 {
            assert(!p(s[0]));
        }
    } else {
        assert(p(s[0]));
        lemma_trim_front_skip(s.drop_first(), p, i - 1);
        assert(s.drop_first().skip(i - 1) =~= s.skip(i));
    }
}

/// Drops leading and trailing whitespace, exactly as the recursive
/// `trim_spec` describes.
pub fn trim_bytes(s: &Vec<u8>) -> (r: Vec<u8>)
    ensures
        r@ == trim_spec(s@),
{
    let n = s.len();
    let mut hi: usize = n;
    while hi > 0 && is_ws_byte(s[hi - 1])
        invariant
            hi <= n,
            n == s@.len(),
            forall|k: int| hi <= k < n ==> is_ws(s@[k]),
        decreases hi,
    {
        hi = hi - 1;
    }
    proof {
        lemma_trim_back_take(s@, |b: u8| is_ws(b), hi as int);
    }
    let mut lo: usize = 0;
    while lo < hi && is_ws_byte(s[lo])
        invariant
            lo <= hi <= n,
            n == s@.len(),
            forall|k: int| 0 <= k < lo ==> is_ws(s@[k]),
        decreases hi - lo,
    {
        lo = lo + 1;
    }
    proof {
        let t = s@.take(hi as int);
        lemma_trim_front_skip(t, |b: u8| is_ws(b), lo as int);
        assert(trim_spec(s@) == t.skip(lo as int));
    }
    let mut r: Vec<u8> = Vec::new();
    let mut i: usize = lo;
    while i < hi
        invariant
            lo <= i <= hi <= n,
            n == s@.len(),
            r@ == s@.take(hi as int).skip(lo as int).take(i - lo),
        decreases hi - i,
    {
        r.push(s[i]);
        proof {
            let t = s@.take(hi as int).skip(lo as int);
            assert(t.take(i - lo).push(s@[i as int]) =~= t.take(i + 1 - lo));
        }
        i = i + 1;
    }
    proof {
        let t = s@.take(hi as int).skip(lo as int);
        assert(t.take(hi - lo) =~= t);
    }
    r
}

/// Executable twin of `is_ws`.
fn is_ws_byte(b: u8) -> (r: bool)
    ensures
        r == is_ws(b),
{
    b == 9 || b == 10 || b == 11 || b == 12 || b == 13 || b == 32
}

/// An ASCII decimal digit.
pub open spec fn is_digit(b: u8) -> bool {
    48 <= b <= 57
}

/// Every byte of `s` is a decimal digit.
pub open spec fn all_digits(s: Seq<u8>) -> bool {
    forall|i: int| 0 <= i < s.len() ==> is_digit(s[i])
}

/// The integer a digit string denotes, most significant digit first.
pub open spec fn digits_val(s: Seq<u8>) -> int
    decreases s.len(),
{
    if s.len() == 0 {
        0
    } else {
        digits_val(s.drop_last()) * 10 + (s.last() - 48)
    }
}

/// The strings accepted by Rust's `i64` parser: an optional `+` or `-` sign
/// followed by at least one digit.
pub open spec fn is_numeral(s: Seq<u8>) -> bool {
    if s.len() == 0 {
        false
    } else if s[0] == 43 || s[0] == 45 {
        s.len() > 1 && all_digits(s.skip(1))
    } else {
        all_digits(s)
    }
}

/// The signed value a numeral denotes (meaningful only when `is_numeral`).
pub open spec fn numeral_val(s: Seq<u8>) -> int {
    if s.len() > 0 && s[0] == 45 {
        -digits_val(s.skip(1))
    } else if s.len() > 0 && s[0] == 43 {
        digits_val(s.skip(1))
    } else {
        digits_val(s)
    }
}

proof fn lemma_digits_val_nonneg(s: Seq<u8>)
    requires
        all_digits(s),
    ensures
        digits_val(s) >= 0,
    decreases s.len(),
{
    if s.len() > 0 {
        lemma_digits_val_nonneg(s.drop_last());
    }
}

/// Parses the trimmed bytes of a `git log -1 --format=%ct` invocation.
/// Returns the denoted value when the output is a decimal numeral in `i64`
/// range, and the sentinel `0` (meaning "unknown") otherwise.
pub fn parse_timestamp(s: &Vec<u8>) -> (r: i64)
    ensures
        ({
            let t = trim_spec(s@);
            if is_numeral(t) && i64::MIN <= numeral_val(t) <= i64::MAX {
                r == numeral_val(t)
            } else {
                r == 0
            }
        }),
{
    let t = trim_bytes(s);
    if t.len() == 0 {
        return 0;
    }
    let negative = t[0] == 45;
    let start: usize = if t[0] == 45 || t[0] == 43 {
        1
    } else {
        0
    };
    if start == t.len() {
        return 0;
    }
    let mut acc: u64 = 0;
    let mut over = false;
    let mut i: usize = start;
    while i < t.len()
        invariant
            t@ == trim_spec(s@),
            start <= i <= t@.len(),
            t@.len() <= usize::MAX,
            start == 1 <==> (t@[0] == 45 || t@[0] == 43),
            start == 0 || start == 1,
            start < t@.len(),
            negative == (t@[0] == 45),
            all_digits(t@.subrange(start as int, i as int)),
            !over ==> acc == digits_val(t@.subrange(start as int, i as int)),
            over ==> digits_val(t@.subrange(start as int, i as int)) > u64::MAX,
        decreases t@.len() - i,
    {
        let b = t[i];
        if b < 48 || b > 57 {
            proof {
                assert(!is_digit(t@[i as int]));
                let tail = t@.skip(start as int);
                assert(tail[i - start] == t@[i as int]);
                if start == 1 {
                    assert(!is_numeral(t@));
                } else {
                    assert(!all_digits(t@));
                }
            }
            return 0;
        }
        let d = (b - 48) as u64;
        proof {
            let pre = t@.subrange(start as int, i as int);
            let post = t@.subrange(start as int, i + 1);
            assert(post.drop_last() =~= pre);
            assert(post.last() == t@[i as int]);
            if over {
                lemma_digits_val_nonneg(pre);
            }
        }
        if over {
        } else if acc > u64::MAX / 10 {
            over = true;
            proof {
                let pre = t@.subrange(start as int, i as int);
                assert(digits_val(pre) * 10 + d > u64::MAX);
            }
        } else if acc * 10 > u64::MAX - d {
            over = true;
            proof {
                let pre = t@.subrange(start as int, i as int);
                assert(digits_val(pre) * 10 + d > u64::MAX);
            }
        } else {
            acc = acc * 10 + d;
        }
        i = i + 1;
    }
    proof {
        assert(t@.subrange(start as int, t@.len() as int) =~= t@.skip(start as int));
        if start == 1 {
            assert(is_numeral(t@));
        } else {
            assert(t@.skip(0) =~= t@);
            assert(is_numeral(t@));
        }
    }
    if over {
        proof {
            lemma_digits_val_nonneg(t@.skip(start as int));
        }
        return 0;
    }
    if negative {
        if acc <= 9223372036854775808u64 {
            if acc == 9223372036854775808u64 {
                i64::MIN
            } else {
                -(acc as i64)
            }
        } else {
            0
        }
    } else {
        if acc <= 9223372036854775807u64 {
            acc as i64
        } else {
            0
        }
    }
}

} // verus!
