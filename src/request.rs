//! The request line, `METHOD SP PATH SP HTTP/1.d CRLF`, and the header block after it.
use vstd::prelude::*;
use vstd::slice::slice_subrange;
use vstd::string::StringSliceAdditionalSpecFns;
use crate::common::{Error, Status};
use crate::grammar::{is_token_byte, lemma_run_within, run, run_end, ByteClass, SP};
use crate::header::{lemma_ascii_valid_utf8, utf8_text, HeaderField};
use crate::headers::{block_from, fields_view, FieldSpan};
use crate::line::{chain, crlf_at, scan_crlf, scan_version, version_at, Piece};

verus! {

/// The end of the method: the first byte of `s` that is not a token byte.
pub open spec fn method_end(s: Seq<u8>) -> int {
    run(s, 0, ByteClass::Token) as int
}

/// The end of the path, which starts after the space that follows the method.
pub open spec fn path_end(s: Seq<u8>) -> int {
    method_end(s) + 1 + run(s, method_end(s) + 1, ByteClass::Path)
}

/// The grammar of the request line at the start of `s`: a non-empty token, one
/// space, a non-empty path, one space, the version and CR LF. On success the
/// piece ends where the header block starts.
pub open spec fn request_line(s: Seq<u8>) -> Piece {
    let me = method_end(s);
    let pe = path_end(s);
    if me >= s.len() {
        Piece::Short
    } else if me == 0 || s[me] != SP {
        Piece::Bad
    } else if pe >= s.len() {
        Piece::Short
    } else if pe == me + 1 || s[pe] != SP {
        Piece::Bad
    } else {
        chain(version_at(s, pe + 1), crlf_at(s, pe + 9))
    }
}

/// The outcome of parsing `s` as a request with room for `capacity` fields, and
/// the fields read.
pub open spec fn request_parse(s: Seq<u8>, capacity: nat) -> (Result<Status, Error>, Seq<FieldSpan>) {
    match request_line(s) {
        Piece::Short => (Ok(Status::Partial), Seq::empty()),
        Piece::Bad => (Err(Error::Parse), Seq::empty()),
        Piece::Ends(h) => block_from(s, h as int, capacity),
    }
}

/// The minor version that a request line of `s` names.
pub open spec fn request_minor(s: Seq<u8>) -> u8 {
    (s[path_end(s) + 8] - 48) as u8
}

/// A parser of a request over `buf`, with room for `capacity` header fields.
pub struct Request<'buf> {
    /// The fields read by the last call of `parse`.
    pub headers: Vec<HeaderField<'buf>>,
    buf: &'buf [u8],
    capacity: usize,
    method: Option<&'buf [u8]>,
    path: Option<&'buf [u8]>,
    version: Option<u8>,
}

impl<'buf> Request<'buf> {
    /// A method, once there, is a token.
    #[verifier::type_invariant]
    closed spec fn method_is_token(self) -> bool {
        self.method matches Some(m) ==> forall|j: int|
            0 <= j < m@.len() ==> is_token_byte(#[trigger] m@[j])
    }

    /// The fields read by the last call of `parse`.
    pub closed spec fn fields(&self) -> Seq<HeaderField<'buf>> {
        self.headers@
    }

    /// The bytes this parser reads.
    pub closed spec fn buffer(&self) -> Seq<u8> {
        self.buf@
    }

    /// The most header fields a parse may read.
    pub closed spec fn capacity(&self) -> nat {
        self.capacity as nat
    }

    /// The method bytes, once a request line was read whole.
    pub closed spec fn method_view(&self) -> Option<Seq<u8>> {
        match self.method {
            Some(m) => Some(m@),
            None => None,
        }
    }

    /// The path bytes, once a request line was read whole.
    pub closed spec fn path_view(&self) -> Option<Seq<u8>> {
        match self.path {
            Some(p) => Some(p@),
            None => None,
        }
    }

    /// The minor version, once a request line was read whole.
    pub closed spec fn version_view(&self) -> Option<u8> {
        self.version
    }

    pub fn new(buf: &'buf [u8], capacity: usize) -> (r: Request<'buf>)
        ensures
            r.buffer() == buf@,
            r.capacity() == capacity,
            r.fields().len() == 0,
            r.method_view() is None,
            r.path_view() is None,
            r.version_view() is None,
    {
        Request { headers: Vec::new(), buf, capacity, method: None, path: None, version: None }
    }

    /// The method as text, once a request line was read whole.
    pub fn method(&self) -> (r: Option<&str>)
        ensures
            r is Some <==> self.method_view() is Some,
            r is Some ==> r.unwrap().spec_bytes() == self.method_view().unwrap(),
    {
        proof {
            use_type_invariant(self);
        }
        match self.method {
            Some(m) => {
                proof {
                    lemma_ascii_valid_utf8(m@);
                }
                utf8_text(m)
            },
            None => None,
        }
    }

    /// The request target, once a request line was read whole. It is handed out as
    /// bytes: the grammar admits bytes that are not UTF-8 there.
    pub fn path(&self) -> (r: Option<&'buf [u8]>)
        ensures
            r is Some <==> self.path_view() is Some,
            r is Some ==> r.unwrap()@ == self.path_view().unwrap(),
    {
        self.path
    }

    pub fn minor_version(&self) -> (r: Option<u8>)
        ensures
            r == self.version_view(),
    {
        self.version
    }

    /// Parses the whole buffer as a request line and a header block. `last_len`,
    /// the length of the buffer at the previous call, is a hint only: the outcome
    /// depends on the buffer and the capacity alone. Method, path and version are
    /// there as soon as the request line was read whole, also when the header
    /// block is not.
    pub fn parse(&mut self, last_len: usize) -> (r: Result<Status, Error>)
        ensures
            final(self).buffer() == old(self).buffer(),
            final(self).capacity() == old(self).capacity(),
            r == request_parse(old(self).buffer(), old(self).capacity()).0,
            fields_view(
                final(self).fields(),
                request_parse(old(self).buffer(), old(self).capacity()).1,
                old(self).buffer(),
            ),
            ({
                let s = old(self).buffer();
                if request_line(s) is Ends {
                    &&& final(self).method_view() == Some(s.subrange(0, method_end(s)))
                    &&& final(self).path_view() == Some(s.subrange(method_end(s) + 1, path_end(s)))
                    &&& final(self).version_view() == Some(request_minor(s))
                } else {
                    &&& final(self).method_view() is None
                    &&& final(self).path_view() is None
                    &&& final(self).version_view() is None
                }
            }),
    {
        let ghost s = self.buf@;
        let buf = self.buf;
        self.method = None;
        self.headers = Vec::new();
        self.path = None;
        self.version = None;
        let me = run_end(buf, 0, ByteClass::Token);
        if me >= buf.len() {
            return Ok(Status::Partial);
        }
        if me == 0 || buf[me] != SP {
            return Err(Error::Parse);
        }
        let pe = run_end(buf, me + 1, ByteClass::Path);
        if pe >= buf.len() {
            return Ok(Status::Partial);
        }
        if pe == me + 1 || buf[pe] != SP {
            return Err(Error::Parse);
        }
        let minor = match scan_version(buf, pe + 1) {
            Piece::Ends(_) => buf[pe + 8] - 48,
            Piece::Short => {
                return Ok(Status::Partial);
            },
            Piece::Bad => {
                return Err(Error::Parse);
            },
        };
        let h = match scan_crlf(buf, pe + 9) {
            Piece::Ends(h) => h,
            Piece::Short => {
                return Ok(Status::Partial);
            },
            Piece::Bad => {
                return Err(Error::Parse);
            },
        };
        proof {
            lemma_run_within(buf@, 0, ByteClass::Token);
        }
        self.method = Some(slice_subrange(buf, 0, me));
        self.path = Some(slice_subrange(buf, me + 1, pe));
        self.version = Some(minor);
        let mut fields: Vec<HeaderField<'buf>> = Vec::new();
        let r = crate::headers::scan_block(buf, h, self.capacity, &mut fields);
        self.headers = fields;
        r
    }
}

} // verus!
