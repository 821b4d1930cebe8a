//! The status line, `HTTP/1.d SP DDD SP REASON CRLF`, and the header block after it.
use vstd::prelude::*;
use vstd::slice::slice_subrange;
use crate::common::{Error, Status};
use crate::grammar::{run, run_end, ByteClass, SP};
use crate::header::HeaderField;
use crate::headers::{block_from, fields_view, FieldSpan};
use crate::line::{
    byte_at, chain, crlf_at, digit_at, scan_byte, scan_crlf, scan_digit, scan_version, version_at,
    Piece,
};

verus! {

/// The index where the reason phrase starts: after the version, a space, three
/// digits and a space.
pub open spec fn reason_start() -> int {
    13
}

/// The end of the reason phrase: the first byte after its start that is not a value byte.
pub open spec fn reason_end(s: Seq<u8>) -> int {
    reason_start() + run(s, reason_start(), ByteClass::Value)
}

/// The grammar of the status line at the start of `s`: the version, one space,
/// three digits, one space, a reason phrase of value bytes (maybe empty) and
/// CR LF. On success the piece ends where the header block starts.
pub open spec fn status_line(s: Seq<u8>) -> Piece {
    chain(
        version_at(s, 0),
        chain(
            byte_at(s, 8, SP),
            chain(
                digit_at(s, 9),
                chain(
                    digit_at(s, 10),
                    chain(digit_at(s, 11), chain(byte_at(s, 12, SP), crlf_at(s, reason_end(s)))),
                ),
            ),
        ),
    )
}

/// The outcome of parsing `s` as a response with room for `capacity` fields, and
/// the fields read.
pub open spec fn response_parse(s: Seq<u8>, capacity: nat) -> (Result<Status, Error>, Seq<FieldSpan>) {
    match status_line(s) {
        Piece::Short => (Ok(Status::Partial), Seq::empty()),
        Piece::Bad => (Err(Error::Parse), Seq::empty()),
        Piece::Ends(h) => block_from(s, h as int, capacity),
    }
}

/// The minor version that a status line of `s` names.
pub open spec fn response_minor(s: Seq<u8>) -> u8 {
    (s[7] - 48) as u8
}

/// The status code that a status line of `s` names.
pub open spec fn status_code(s: Seq<u8>) -> u16 {
    (100 * (s[9] - 48) + 10 * (s[10] - 48) + (s[11] - 48)) as u16
}

/// Scans the status line at the start of `buf`.
fn scan_status_line(buf: &[u8]) -> (r: Piece)
    ensures
        r == status_line(buf@),
{
    let p = scan_version(buf, 0);
    if !p.ends() {
        return p;
    }
    let p = scan_byte(buf, 8, SP);
    if !p.ends() {
        return p;
    }
    let p = scan_digit(buf, 9);
    if !p.ends() {
        return p;
    }
    let p = scan_digit(buf, 10);
    if !p.ends() {
        return p;
    }
    let p = scan_digit(buf, 11);
    if !p.ends() {
        return p;
    }
    let p = scan_byte(buf, 12, SP);
    if !p.ends() {
        return p;
    }
    let re = run_end(buf, 13, ByteClass::Value);
    scan_crlf(buf, re)
}

/// A parser of a response over `buf`, with room for `capacity` header fields.
pub struct Response<'buf> {
    /// The fields read by the last call of `parse`.
    pub headers: Vec<HeaderField<'buf>>,
    buf: &'buf [u8],
    capacity: usize,
    version: Option<u8>,
    status: Option<u16>,
    reason: Option<&'buf [u8]>,
}

impl<'buf> Response<'buf> {
    /// The fields read by the last call of `parse`.
    pub closed spec fn fields(&self) -> Seq<HeaderField<'buf>> {
        self.headers@
    }

    /// The bytes this parser reads.
    pub closed spec fn buffer(&self) -> Seq<u8> {
        self.buf@
    }

    /// The most header fields a parse may read.
    pub closed spec fn capacity(&self) -> nat {
        self.capacity as nat
    }

    /// The minor version, once a status line was read whole.
    pub closed spec fn version_view(&self) -> Option<u8> {
        self.version
    }

    /// The status code, once a status line was read whole.
    pub closed spec fn status_view(&self) -> Option<u16> {
        self.status
    }

    /// The reason phrase, once a status line was read whole.
    pub closed spec fn reason_view(&self) -> Option<Seq<u8>> {
        match self.reason {
            Some(m) => Some(m@),
            None => None,
        }
    }

    pub fn new(buf: &'buf [u8], capacity: usize) -> (r: Response<'buf>)
        ensures
            r.buffer() == buf@,
            r.capacity() == capacity,
            r.fields().len() == 0,
            r.version_view() is None,
            r.status_view() is None,
            r.reason_view() is None,
    {
        Response { headers: Vec::new(), buf, capacity, version: None, status: None, reason: None }
    }

    pub fn minor_version(&self) -> (r: Option<u8>)
        ensures
            r == self.version_view(),
    {
        self.version
    }

    pub fn status(&self) -> (r: Option<u16>)
        ensures
            r == self.status_view(),
    {
        self.status
    }

    /// The reason phrase, once a status line was read whole. It is handed out as
    /// bytes: the grammar admits bytes that are not UTF-8 there.
    pub fn description(&self) -> (r: Option<&'buf [u8]>)
        ensures
            r is Some <==> self.reason_view() is Some,
            r is Some ==> r.unwrap()@ == self.reason_view().unwrap(),
    {
        self.reason
    }

    /// Parses the whole buffer as a status line and a header block. `last_len`,
    /// the length of the buffer at the previous call, is a hint only: the outcome
    /// depends on the buffer and the capacity alone. Version, status and reason
    /// are there as soon as the status line was read whole, also when the header
    /// block is not.
    pub fn parse(&mut self, last_len: usize) -> (r: Result<Status, Error>)
        ensures
            final(self).buffer() == old(self).buffer(),
            final(self).capacity() == old(self).capacity(),
            r == response_parse(old(self).buffer(), old(self).capacity()).0,
            fields_view(
                final(self).fields(),
                response_parse(old(self).buffer(), old(self).capacity()).1,
                old(self).buffer(),
            ),
            ({
                let s = old(self).buffer();
                if status_line(s) is Ends {
                    &&& final(self).version_view() == Some(response_minor(s))
                    &&& final(self).status_view() == Some(status_code(s))
                    &&& final(self).reason_view() == Some(s.subrange(reason_start(), reason_end(s)))
                } else {
                    &&& final(self).version_view() is None
                    &&& final(self).status_view() is None
                    &&& final(self).reason_view() is None
                }
            }),
    {
        let buf = self.buf;
        self.headers = Vec::new();
        self.version = None;
        self.status = None;
        self.reason = None;
        let h = match scan_status_line(buf) {
            Piece::Ends(h) => h,
            Piece::Short => {
                return Ok(Status::Partial);
            },
            Piece::Bad => {
                return Err(Error::Parse);
            },
        };
        let code: u16 = 100 * ((buf[9] - 48) as u16) + 10 * ((buf[10] - 48) as u16) + ((buf[11]
            - 48) as u16);
        self.version = Some(buf[7] - 48);
        self.status = Some(code);
        self.reason = Some(slice_subrange(buf, 13, h - 2));
        let mut fields: Vec<HeaderField<'buf>> = Vec::new();
        let r = crate::headers::scan_block(buf, h, self.capacity, &mut fields);
        self.headers = fields;
        r
    }
}

} // verus!
