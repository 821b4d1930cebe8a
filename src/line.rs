//! Fixed pieces of the start lines: the version literal and the line end.
use vstd::prelude::*;
use crate::grammar::{is_digit, CR, LF};

verus! {

/// How a piece of a line at a given index of a buffer fares.
pub enum Piece {
    /// The buffer ends before the piece could be confirmed.
    Short,
    /// A byte of the piece breaks the grammar.
    Bad,
    /// The piece is there whole; the payload is the index just after it.
    Ends(usize),
}

impl Piece {
    pub fn ends(&self) -> (r: bool)
        ensures
            r == (*self is Ends),
    {
        match self {
            Piece::Ends(_) => true,
            _ => false,
        }
    }
}

/// `a`, if it did not end well; otherwise `b`, the piece that follows it.
pub open spec fn chain(a: Piece, b: Piece) -> Piece {
    match a {
        Piece::Ends(_) => b,
        _ => a,
    }
}

/// The bytes of `HTTP/1.`.
pub open spec fn http1() -> Seq<u8> {
    seq![72u8, 84u8, 84u8, 80u8, 47u8, 49u8, 46u8]
}

/// The version at index `i` of `s`: `HTTP/1.` and one digit, eight bytes.
pub open spec fn version_at(s: Seq<u8>, i: int) -> Piece {
    if exists|k: int| 0 <= k < 7 && i + k < s.len() && #[trigger] s[i + k] != http1()[k] {
        Piece::Bad
    } else if i + 8 > s.len() {
        Piece::Short
    } else if !is_digit(s[i + 7]) {
        Piece::Bad
    } else {
        Piece::Ends((i + 8) as usize)
    }
}

/// CR LF at index `i` of `s`.
pub open spec fn crlf_at(s: Seq<u8>, i: int) -> Piece {
    if i >= s.len() {
        Piece::Short
    } else if s[i] != CR {
        Piece::Bad
    } else if i + 1 >= s.len() {
        Piece::Short
    } else if s[i + 1] != LF {
        Piece::Bad
    } else {
        Piece::Ends((i + 2) as usize)
    }
}

/// The single byte `b` at index `i` of `s`.
pub open spec fn byte_at(s: Seq<u8>, i: int, b: u8) -> Piece {
    if i >= s.len() {
        Piece::Short
    } else if s[i] != b {
        Piece::Bad
    } else {
        Piece::Ends((i + 1) as usize)
    }
}

/// A decimal digit at index `i` of `s`.
pub open spec fn digit_at(s: Seq<u8>, i: int) -> Piece {
    if i >= s.len() {
        Piece::Short
    } else if !is_digit(s[i]) {
        Piece::Bad
    } else {
        Piece::Ends((i + 1) as usize)
    }
}

/// What a piece that ends well in a buffer becomes on the buffer's first `n`
/// bytes: the same, if it ends by `n`; short otherwise.
pub open spec fn cut(p: Piece, n: int) -> Piece {
    match p {
        Piece::Ends(e) => if e <= n {
            p
        } else {
            Piece::Short
        },
        _ => p,
    }
}

pub proof fn lemma_version_prefix(s: Seq<u8>, n: int, i: int)
    requires
        0 <= i,
        0 <= n <= s.len(),
        s.len() <= usize::MAX,
        version_at(s, i) is Ends,
    ensures
        version_at(s.subrange(0, n), i) == cut(version_at(s, i), n),
{
    let t = s.subrange(0, n);
    assert forall|k: int| 0 <= k < 7 && i + k < t.len() implies #[trigger] t[i + k] == http1()[k] by {
        assert(t[i + k] == s[i + k]);
    }
    if i + 8 <= n {
        assert(t[i + 7] == s[i + 7]);
    }
}

pub proof fn lemma_crlf_prefix(s: Seq<u8>, n: int, i: int)
    requires
        0 <= i,
        0 <= n <= s.len(),
        s.len() <= usize::MAX,
        crlf_at(s, i) is Ends,
    ensures
        crlf_at(s.subrange(0, n), i) == cut(crlf_at(s, i), n),
{
    let t = s.subrange(0, n);
    if i < n {
        assert(t[i] == s[i]);
    }
    if i + 1 < n {
        assert(t[i + 1] == s[i + 1]);
    }
}

pub proof fn lemma_byte_prefix(s: Seq<u8>, n: int, i: int, b: u8)
    requires
        0 <= i,
        0 <= n <= s.len(),
        s.len() <= usize::MAX,
        byte_at(s, i, b) is Ends,
    ensures
        byte_at(s.subrange(0, n), i, b) == cut(byte_at(s, i, b), n),
{
    if i < n {
        assert(s.subrange(0, n)[i] == s[i]);
    }
}

pub proof fn lemma_digit_prefix(s: Seq<u8>, n: int, i: int)
    requires
        0 <= i,
        0 <= n <= s.len(),
        s.len() <= usize::MAX,
        digit_at(s, i) is Ends,
    ensures
        digit_at(s.subrange(0, n), i) == cut(digit_at(s, i), n),
{
    if i < n {
        assert(s.subrange(0, n)[i] == s[i]);
    }
}

fn http1_byte(k: usize) -> (r: u8)
    requires
        k < 7,
    ensures
        r == http1()[k as int],
{
    if k == 0 {
        72
    } else if k == 1 || k == 2 {
        84
    } else if k == 3 {
        80
    } else if k == 4 {
        47
    } else if k == 5 {
        49
    } else {
        46
    }
}

pub fn scan_version(buf: &[u8], i: usize) -> (r: Piece)
    requires
        i <= buf@.len(),
    ensures
        r == version_at(buf@, i as int),
{
    let mut k: usize = 0;
    while k < 7
        invariant
            k <= 7,
            i <= buf@.len(),
            i + k <= buf@.len(),
            forall|j: int| 0 <= j < k ==> #[trigger] buf@[i + j] == http1()[j],
        decreases 7 - k,
    {
        if k >= buf.len() - i {
            assert(!exists|j: int|
                0 <= j < 7 && i + j < buf@.len() && #[trigger] buf@[i + j] != http1()[j]);
            return Piece::Short;
        }
        if buf[i + k] != http1_byte(k) {
            assert(buf@[i + k] != http1()[k as int]);
            return Piece::Bad;
        }
        k = k + 1;
    }
    assert(!exists|j: int| 0 <= j < 7 && i + j < buf@.len() && #[trigger] buf@[i + j] != http1()[j]);
    if buf.len() - i < 8 {
        return Piece::Short;
    }
    let d = buf[i + 7];
    if d < 48 || d > 57 {
        Piece::Bad
    } else {
        Piece::Ends(i + 8)
    }
}

pub fn scan_crlf(buf: &[u8], i: usize) -> (r: Piece)
    requires
        i <= buf@.len(),
    ensures
        r == crlf_at(buf@, i as int),
{
    if i >= buf.len() {
        Piece::Short
    } else if buf[i] != CR {
        Piece::Bad
    } else if i + 1 >= buf.len() {
        Piece::Short
    } else if buf[i + 1] != LF {
        Piece::Bad
    } else {
        Piece::Ends(i + 2)
    }
}

pub fn scan_byte(buf: &[u8], i: usize, b: u8) -> (r: Piece)
    requires
        i <= buf@.len(),
    ensures
        r == byte_at(buf@, i as int, b),
{
    if i >= buf.len() {
        Piece::Short
    } else if buf[i] != b {
        Piece::Bad
    } else {
        Piece::Ends(i + 1)
    }
}

pub fn scan_digit(buf: &[u8], i: usize) -> (r: Piece)
    requires
        i <= buf@.len(),
    ensures
        r == digit_at(buf@, i as int),
{
    if i >= buf.len() {
        Piece::Short
    } else if buf[i] < 48 || buf[i] > 57 {
        Piece::Bad
    } else {
        Piece::Ends(i + 1)
    }
}

} // verus!
