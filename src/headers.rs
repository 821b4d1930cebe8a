//! The header block: `name: value` lines closed by an empty line.
use vstd::prelude::*;
use vstd::slice::slice_subrange;
use crate::common::{Error, Status};
use crate::grammar::{run, run_end, trailing_blanks, trim_end, ByteClass, COLON, CR, LF};
use crate::header::HeaderField;

verus! {

/// Where one header line lies in the buffer: the name is `name_start .. name_end`,
/// the value `value_start .. value_end`.
pub struct FieldSpan {
    pub name_start: int,
    pub name_end: int,
    pub value_start: int,
    pub value_end: int,
}

/// The grammar of a header block that starts at index `i` of `s`, with room for
/// `room` more fields. Gives the outcome and the fields whose lines were read whole.
///
/// A line is an empty line (CR LF), which ends the block, or a non-empty token,
/// a colon, optional blanks, a value and CR LF; the value keeps no closing blanks.
/// The first byte that breaks the grammar makes the outcome an error; the end of
/// the buffer before that makes it partial. A field line with no room left is an
/// error as soon as its first byte is seen.
pub open spec fn block_from(s: Seq<u8>, i: int, room: nat) -> (Result<Status, Error>, Seq<FieldSpan>)
    decreases s.len() - i,
{
    if i < 0 || i >= s.len() {
        (Ok(Status::Partial), Seq::empty())
    } else if s[i] == CR {
        if i + 1 >= s.len() {
            (Ok(Status::Partial), Seq::empty())
        } else if s[i + 1] == LF {
            (Ok(Status::Complete((i + 2) as usize)), Seq::empty())
        } else {
            (Err(Error::Parse), Seq::empty())
        }
    } else if room == 0 {
        (Err(Error::Parse), Seq::empty())
    } else {
        let ne = i + run(s, i, ByteClass::Token);
        if ne >= s.len() {
            (Ok(Status::Partial), Seq::empty())
        } else if ne == i || s[ne] != COLON {
            (Err(Error::Parse), Seq::empty())
        } else {
            let vs = ne + 1 + run(s, ne + 1, ByteClass::Blank);
            let eol = vs + run(s, vs, ByteClass::Value);
            if eol >= s.len() {
                (Ok(Status::Partial), Seq::empty())
            } else if s[eol] != CR {
                (Err(Error::Parse), Seq::empty())
            } else if eol + 1 >= s.len() {
                (Ok(Status::Partial), Seq::empty())
            } else if s[eol + 1] != LF {
                (Err(Error::Parse), Seq::empty())
            } else {
                let span = FieldSpan {
                    name_start: i,
                    name_end: ne,
                    value_start: vs,
                    value_end: eol - trailing_blanks(s, vs, eol),
                };
                let rest = block_from(s, eol + 2, (room - 1) as nat);
                (rest.0, seq![span] + rest.1)
            }
        }
    }
}

/// The outcome of parsing `s` as a header block alone, with `capacity` slots.
pub open spec fn headers_outcome(s: Seq<u8>, capacity: nat) -> Result<Status, Error> {
    block_from(s, 0, capacity).0
}

/// The fields read when parsing `s` as a header block alone, with `capacity` slots.
pub open spec fn headers_fields(s: Seq<u8>, capacity: nat) -> Seq<FieldSpan> {
    block_from(s, 0, capacity).1
}

/// `f` views exactly the bytes of `s` that `span` marks.
pub open spec fn field_views(f: HeaderField, span: FieldSpan, s: Seq<u8>) -> bool {
    &&& f.name@ == s.subrange(span.name_start, span.name_end)
    &&& f.value@ == s.subrange(span.value_start, span.value_end)
}

/// Field by field, `fields` views the bytes of `s` that `spans` mark.
pub open spec fn fields_view(fields: Seq<HeaderField>, spans: Seq<FieldSpan>, s: Seq<u8>) -> bool {
    &&& fields.len() == spans.len()
    &&& forall|k: int| 0 <= k < spans.len() ==> #[trigger] field_views(fields[k], spans[k], s)
}

/// Parses the header block that starts at `start`, pushing each field onto `out`.
pub fn scan_block<'buf>(
    buf: &'buf [u8],
    start: usize,
    room: usize,
    out: &mut Vec<HeaderField<'buf>>,
) -> (r: Result<Status, Error>)
    requires
        start <= buf@.len(),
        old(out)@.len() == 0,
    ensures
        r == block_from(buf@, start as int, room as nat).0,
        fields_view(final(out)@, block_from(buf@, start as int, room as nat).1, buf@),
{
    let ghost s = buf@;
    let ghost whole = block_from(s, start as int, room as nat);
    let ghost spans: Seq<FieldSpan> = Seq::empty();
    let mut i: usize = start;
    let mut left: usize = room;
    loop
        invariant
            s == buf@,
            start <= i <= s.len(),
            whole == block_from(s, start as int, room as nat),
            whole.0 == block_from(s, i as int, left as nat).0,
            whole.1 == spans + block_from(s, i as int, left as nat).1,
            fields_view(out@, spans, s),
        decreases s.len() - i,
    {
        proof {
            // every exit below but the last reads no further field
            assert(spans + Seq::<FieldSpan>::empty() =~= spans);
        }
        if i >= buf.len() {
            return Ok(Status::Partial);
        }
        if buf[i] == CR {
            if i + 1 >= buf.len() {
                return Ok(Status::Partial);
            } else if buf[i + 1] == LF {
                return Ok(Status::Complete(i + 2));
            } else {
                return Err(Error::Parse);
            }
        }
        if left == 0 {
            return Err(Error::Parse);
        }
        let ne = run_end(buf, i, ByteClass::Token);
        if ne >= buf.len() {
            return Ok(Status::Partial);
        }
        if ne == i || buf[ne] != COLON {
            return Err(Error::Parse);
        }
        let vs = run_end(buf, ne + 1, ByteClass::Blank);
        let eol = run_end(buf, vs, ByteClass::Value);
        if eol >= buf.len() {
            return Ok(Status::Partial);
        }
        if buf[eol] != CR {
            return Err(Error::Parse);
        }
        if eol + 1 >= buf.len() {
            return Ok(Status::Partial);
        }
        if buf[eol + 1] != LF {
            return Err(Error::Parse);
        }
        let ve = trim_end(buf, vs, eol);
        let field = HeaderField { name: slice_subrange(buf, i, ne), value: slice_subrange(buf, vs, ve) };
        let ghost span = FieldSpan {
            name_start: i as int,
            name_end: ne as int,
            value_start: vs as int,
            value_end: ve as int,
        };
        let ghost old_out = out@;
        out.push(field);
        proof {
            let rest = block_from(s, eol + 2, (left - 1) as nat);
            assert(block_from(s, i as int, left as nat).1 == seq![span] + rest.1);
            assert(spans + (seq![span] + rest.1) =~= spans.push(span) + rest.1);
            assert forall|k: int| 0 <= k < spans.len() + 1 implies #[trigger] field_views(
                out@[k],
                spans.push(span)[k],
                s,
            ) by {
                if k < spans.len() {
                    assert(field_views(old_out[k], spans[k], s));
                }
            }
            spans = spans.push(span);
        }
        i = eol + 2;
        left = left - 1;
    }
}

/// A parser of a header block alone, over `buf`, with room for `capacity` fields.
pub struct Headers<'buf> {
    /// The fields read by the last call of `parse`.
    pub headers: Vec<HeaderField<'buf>>,
    buf: &'buf [u8],
    capacity: usize,
}

impl<'buf> Headers<'buf> {
    /// The fields read by the last call of `parse`.
    pub closed spec fn fields(&self) -> Seq<HeaderField<'buf>> {
        self.headers@
    }

    /// The bytes this parser reads.
    pub closed spec fn buffer(&self) -> Seq<u8> {
        self.buf@
    }

    /// The most fields a parse may read.
    pub closed spec fn capacity(&self) -> nat {
        self.capacity as nat
    }

    pub fn new(buf: &'buf [u8], capacity: usize) -> (r: Headers<'buf>)
        ensures
            r.buffer() == buf@,
            r.capacity() == capacity,
            r.fields().len() == 0,
    {
        Headers { headers: Vec::new(), buf, capacity }
    }

    /// Parses the whole buffer as a header block. `last_len`, the length of the
    /// buffer at the previous call, is a hint only: the outcome depends on the
    /// buffer and the capacity alone. Afterwards `headers` holds exactly the
    /// fields whose lines were read whole.
    pub fn parse(&mut self, last_len: usize) -> (r: Result<Status, Error>)
        ensures
            final(self).buffer() == old(self).buffer(),
            final(self).capacity() == old(self).capacity(),
            r == headers_outcome(old(self).buffer(), old(self).capacity()),
            fields_view(
                final(self).fields(),
                headers_fields(old(self).buffer(), old(self).capacity()),
                old(self).buffer(),
            ),
    {
        let mut fields: Vec<HeaderField<'buf>> = Vec::new();
        let r = scan_block(self.buf, 0, self.capacity, &mut fields);
        self.headers = fields;
        r
    }
}

} // verus!
