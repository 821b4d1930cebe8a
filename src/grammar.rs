//! Byte classes of the HTTP/1.x grammar and the scanner that measures runs of them.
use vstd::prelude::*;

verus! {

pub const HT: u8 = 9;
pub const LF: u8 = 10;
pub const CR: u8 = 13;
pub const SP: u8 = 32;
pub const COLON: u8 = 58;
pub const DEL: u8 = 127;

/// A byte that may stand in a token (method names, header field names):
/// visible ASCII other than the separators `"(),/:;<=>?@[\]{}`.
pub open spec fn is_token_byte(b: u8) -> bool {
    &&& 33 <= b <= 126
    &&& b != 34 && b != 40 && b != 41 && b != 44 && b != 47
    &&& b != 58 && b != 59 && b != 60 && b != 61 && b != 62 && b != 63 && b != 64
    &&& b != 91 && b != 92 && b != 93 && b != 123 && b != 125
}

/// A byte that may stand in a header value or a reason phrase: anything but a
/// control character, horizontal tab excepted.
pub open spec fn is_value_byte(b: u8) -> bool {
    b == HT || (b >= SP && b != DEL)
}

/// A byte that may stand in a request target: neither a space nor a control character.
pub open spec fn is_path_byte(b: u8) -> bool {
    b > SP && b != DEL
}

/// Optional whitespace: a space or a horizontal tab.
pub open spec fn is_blank(b: u8) -> bool {
    b == SP || b == HT
}

pub open spec fn is_digit(b: u8) -> bool {
    48 <= b <= 57
}

/// The byte classes that the scanner measures runs of.
pub enum ByteClass {
    Token,
    Value,
    Path,
    Blank,
}

pub open spec fn in_class(c: ByteClass, b: u8) -> bool {
    match c {
        ByteClass::Token => is_token_byte(b),
        ByteClass::Value => is_value_byte(b),
        ByteClass::Path => is_path_byte(b),
        ByteClass::Blank => is_blank(b),
    }
}

/// The number of bytes of class `c` that follow, without a break, from index `i` of `s`.
pub open spec fn run(s: Seq<u8>, i: int, c: ByteClass) -> nat
    decreases s.len() - i,
{
    if 0 <= i < s.len() && in_class(c, s[i]) {
        1 + run(s, i + 1, c)
    } else {
        0
    }
}

/// The number of blanks that close the range `lo .. hi` of `s`.
pub open spec fn trailing_blanks(s: Seq<u8>, lo: int, hi: int) -> nat
    decreases hi - lo,
{
    if lo < hi && is_blank(s[hi - 1]) {
        1 + trailing_blanks(s, lo, hi - 1)
    } else {
        0
    }
}

/// A control byte: below space, or DEL.
pub open spec fn is_control(b: u8) -> bool {
    b < SP || b == DEL
}

/// A run is measured exactly: `k` bytes of the class, then a byte outside it or the end.
pub proof fn lemma_run_exact(s: Seq<u8>, i: int, k: int, c: ByteClass)
    requires
        0 <= i,
        0 <= k,
        i + k <= s.len(),
        forall|j: int| i <= j < i + k ==> in_class(c, #[trigger] s[j]),
        i + k == s.len() || !in_class(c, s[i + k]),
    ensures
        run(s, i, c) == k,
    decreases k,
{
    if k > 0 {
        lemma_run_exact(s, i + 1, k - 1, c);
    }
}

/// Every byte of a run is of its class, and the run stays inside the sequence.
pub proof fn lemma_run_within(s: Seq<u8>, i: int, c: ByteClass)
    requires
        0 <= i <= s.len(),
    ensures
        i + run(s, i, c) <= s.len(),
        forall|j: int| i <= j < i + run(s, i, c) ==> in_class(c, #[trigger] s[j]),
        i + run(s, i, c) < s.len() ==> !in_class(c, s[i + run(s, i, c)]),
    decreases s.len() - i,
{
    if i < s.len() && in_class(c, s[i]) {
        lemma_run_within(s, i + 1, c);
    }
}

/// On the first `n` bytes of `s`, a run is the same, but cut at `n`.
pub proof fn lemma_run_prefix(s: Seq<u8>, n: int, i: int, c: ByteClass)
    requires
        0 <= i <= n <= s.len(),
    ensures
        i + run(s.subrange(0, n), i, c) == if i + run(s, i, c) < n {
            i + run(s, i, c)
        } else {
            n
        },
    decreases n - i,
{
    let t = s.subrange(0, n);
    if i < n {
        assert(t[i] == s[i]);
        lemma_run_prefix(s, n, i + 1, c);
    }
}

/// The closing blanks of a range lie inside it.
pub proof fn lemma_trailing_within(s: Seq<u8>, lo: int, hi: int)
    requires
        lo <= hi,
    ensures
        trailing_blanks(s, lo, hi) <= hi - lo,
        forall|j: int| hi - trailing_blanks(s, lo, hi) <= j < hi ==> is_blank(#[trigger] s[j]),
        hi - trailing_blanks(s, lo, hi) == lo || !is_blank(s[hi - trailing_blanks(s, lo, hi) - 1]),
    decreases hi - lo,
{
    if lo < hi && is_blank(s[hi - 1]) {
        lemma_trailing_within(s, lo, hi - 1);
    }
}

pub fn token_byte(b: u8) -> (r: bool)
    ensures
        r == is_token_byte(b),
{
    33 <= b && b <= 126 && b != 34 && b != 40 && b != 41 && b != 44 && b != 47 && b != 58
        && b != 59 && b != 60 && b != 61 && b != 62 && b != 63 && b != 64 && b != 91 && b != 92
        && b != 93 && b != 123 && b != 125
}

pub fn value_byte(b: u8) -> (r: bool)
    ensures
        r == is_value_byte(b),
{
    b == HT || (b >= SP && b != DEL)
}

pub fn byte_in_class(c: &ByteClass, b: u8) -> (r: bool)
    ensures
        r == in_class(*c, b),
{
    match c {
        ByteClass::Token => token_byte(b),
        ByteClass::Value => value_byte(b),
        ByteClass::Path => b > SP && b != DEL,
        ByteClass::Blank => b == SP || b == HT,
    }
}

/// The index where the run of class `c` that starts at `start` ends.
pub fn run_end(buf: &[u8], start: usize, c: ByteClass) -> (end: usize)
    requires
        start <= buf@.len(),
    ensures
        end == start + run(buf@, start as int, c),
        end <= buf@.len(),
{
    let mut j: usize = start;
    while j < buf.len() && byte_in_class(&c, buf[j])
        invariant
            start <= j <= buf@.len(),
            run(buf@, start as int, c) == (j - start) + run(buf@, j as int, c),
        decreases buf@.len() - j,
    {
        j = j + 1;
    }
    j
}

/// The index where the range `lo .. hi` ends once its closing blanks are left out.
pub fn trim_end(buf: &[u8], lo: usize, hi: usize) -> (end: usize)
    requires
        lo <= hi <= buf@.len(),
    ensures
        end == hi - trailing_blanks(buf@, lo as int, hi as int),
        lo <= end <= hi,
{
    let mut j: usize = hi;
    while lo < j && (buf[j - 1] == SP || buf[j - 1] == HT)
        invariant
            lo <= j <= hi,
            hi <= buf@.len(),
            trailing_blanks(buf@, lo as int, hi as int) == (hi - j) + trailing_blanks(
                buf@,
                lo as int,
                j as int,
            ),
        decreases j,
    {
        j = j - 1;
    }
    j
}

} // verus!
