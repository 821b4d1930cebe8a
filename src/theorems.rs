//! Laws that hold of the parsers, stated over the grammar model and proved.
use vstd::prelude::*;
use crate::common::{Error, Status};
use crate::grammar::{
    is_path_byte, is_blank, is_control, is_token_byte, is_value_byte, lemma_run_exact, lemma_run_prefix,
    lemma_run_within, lemma_trailing_within, run, trailing_blanks, ByteClass, COLON, CR, LF, SP,
};
use crate::headers::{block_from, headers_outcome, FieldSpan};
use crate::request::{method_end, path_end, request_line, request_minor, request_parse};
use crate::response::{reason_end, response_parse, status_line};
use crate::line::{
    http1, lemma_byte_prefix, lemma_crlf_prefix, lemma_digit_prefix, lemma_version_prefix, Piece,
};

verus! {

/// A header block alone, a request and a response each fail on a field line
/// when their capacity is zero.
pub proof fn lemma_zero_capacity(s: Seq<u8>)
    ensures
        s.len() > 0 && s[0] != CR ==> headers_outcome(s, 0) == Err::<Status, Error>(Error::Parse),
        request_line(s) is Ends && (request_line(s)->Ends_0 as int) < s.len() && s[request_line(
            s,
        )->Ends_0 as int] != CR ==> request_parse(s, 0).0 == Err::<Status, Error>(Error::Parse),
        status_line(s) is Ends && (status_line(s)->Ends_0 as int) < s.len() && s[status_line(
            s,
        )->Ends_0 as int] != CR ==> response_parse(s, 0).0 == Err::<Status, Error>(Error::Parse),
{
}

/// A control byte (a tab included) inside the method, before any space, makes
/// the request an error.
pub proof fn lemma_control_in_method(s: Seq<u8>, k: int, capacity: nat)
    requires
        0 <= k < s.len(),
        forall|j: int| 0 <= j < k ==> is_token_byte(#[trigger] s[j]),
        is_control(s[k]),
    ensures
        request_parse(s, capacity).0 == Err::<Status, Error>(Error::Parse),
{
    lemma_run_exact(s, 0, k, ByteClass::Token);
}

/// A control byte (a tab included) inside a field name, before its colon, makes
/// the header block an error. At the very start of the block, CR is left out:
/// there it ends the block.
pub proof fn lemma_control_in_field_name(s: Seq<u8>, k: int, capacity: nat)
    requires
        0 <= k < s.len(),
        forall|j: int| 0 <= j < k ==> is_token_byte(#[trigger] s[j]),
        is_control(s[k]),
        k > 0 || s[k] != CR,
    ensures
        headers_outcome(s, capacity) == Err::<Status, Error>(Error::Parse),
{
    lemma_run_exact(s, 0, k, ByteClass::Token);
    if k > 0 {
        assert(is_token_byte(s[0]));
    }
}

/// Where a field read from `s` lies: a non-empty token name, then a colon, then a
/// value of value bytes that neither starts nor ends with a blank, all before the
/// line's CR LF.
pub open spec fn well_placed(s: Seq<u8>, f: FieldSpan) -> bool {
    &&& 0 <= f.name_start < f.name_end < f.value_start <= f.value_end < s.len()
    &&& s[f.name_end] == COLON
    &&& forall|j: int| f.name_start <= j < f.name_end ==> is_token_byte(#[trigger] s[j])
    &&& forall|j: int| f.value_start <= j < f.value_end ==> is_value_byte(#[trigger] s[j])
    &&& f.value_start < f.value_end ==> !is_blank(s[f.value_start]) && !is_blank(
        s[f.value_end - 1],
    )
}

/// Every field that a header block yields views a well-placed part of the buffer,
/// in order, each after the one before.
pub proof fn lemma_fields_well_placed(s: Seq<u8>, i: int, room: nat)
    requires
        0 <= i,
    ensures
        forall|k: int|
            0 <= k < block_from(s, i, room).1.len() ==> well_placed(
                s,
                #[trigger] block_from(s, i, room).1[k],
            ) && i <= block_from(s, i, room).1[k].name_start,
        forall|k: int|
            0 < k < block_from(s, i, room).1.len() ==> #[trigger] block_from(
                s,
                i,
                room,
            ).1[k].name_start > block_from(s, i, room).1[k - 1].value_end,
    decreases s.len() - i,
{
    if i < s.len() && s[i] != CR && room > 0 {
        let ne = i + run(s, i, ByteClass::Token);
        if ne < s.len() && ne != i && s[ne] == COLON {
            lemma_run_within(s, i, ByteClass::Token);
            lemma_run_within(s, ne + 1, ByteClass::Blank);
            let vs = ne + 1 + run(s, ne + 1, ByteClass::Blank);
            lemma_run_within(s, vs, ByteClass::Value);
            let eol = vs + run(s, vs, ByteClass::Value);
            if eol + 1 < s.len() && s[eol] == CR && s[eol + 1] == LF {
                lemma_trailing_within(s, vs, eol);
                lemma_fields_well_placed(s, eol + 2, (room - 1) as nat);
                let span = block_from(s, i, room).1[0];
                if vs < eol {
                    assert(!is_blank(s[vs]));
                }
                assert(well_placed(s, span));
                let rest = block_from(s, eol + 2, (room - 1) as nat).1;
                assert(block_from(s, i, room).1 == seq![span] + rest);
                assert forall|k: int| 0 < k < block_from(s, i, room).1.len() implies #[trigger] block_from(
                    s,
                    i,
                    room,
                ).1[k].name_start > block_from(s, i, room).1[k - 1].value_end by {
                    assert(block_from(s, i, room).1[k] == rest[k - 1]);
                    if k > 1 {
                        assert(block_from(s, i, room).1[k - 1] == rest[k - 2]);
                    }
                }
            }
        }
    }
}

/// Every proper prefix of a header block that completes is partial: the block
/// cannot complete, nor fail, before its last byte is there.
pub proof fn lemma_block_prefix(s: Seq<u8>, n: int, i: int, room: nat)
    requires
        0 <= i <= n <= s.len(),
        block_from(s, i, room).0 is Ok,
        block_from(s, i, room).0->Ok_0 is Complete,
        n < block_from(s, i, room).0->Ok_0->Complete_0,
    ensures
        block_from(s.subrange(0, n), i, room).0 == Ok::<Status, Error>(Status::Partial),
    decreases s.len() - i,
{
    let t = s.subrange(0, n);
    if i < n {
        assert(t[i] == s[i]);
        if s[i] != CR {
            let ne = i + run(s, i, ByteClass::Token);
            lemma_run_prefix(s, n, i, ByteClass::Token);
            if ne < n {
                assert(t[ne] == s[ne]);
                let vs = ne + 1 + run(s, ne + 1, ByteClass::Blank);
                lemma_run_prefix(s, n, ne + 1, ByteClass::Blank);
                if vs < n {
                    let eol = vs + run(s, vs, ByteClass::Value);
                    lemma_run_prefix(s, n, vs, ByteClass::Value);
                    if eol < n {
                        assert(t[eol] == s[eol]);
                        if eol + 1 < n {
                            assert(t[eol + 1] == s[eol + 1]);
                            lemma_block_prefix(s, n, eol + 2, (room - 1) as nat);
                        }
                    }
                } else {
                    assert(run(t, n, ByteClass::Value) == 0);
                }
            }
        }
    }
}

/// A request that completes at byte `c` of `s` is partial on every shorter
/// prefix of `s`: no prefix completes early or fails.
pub proof fn lemma_request_prefix(s: Seq<u8>, n: int, capacity: nat)
    requires
        0 <= n <= s.len(),
        s.len() <= usize::MAX,
        request_parse(s, capacity).0 is Ok,
        request_parse(s, capacity).0->Ok_0 is Complete,
        n < request_parse(s, capacity).0->Ok_0->Complete_0,
    ensures
        request_parse(s.subrange(0, n), capacity).0 == Ok::<Status, Error>(Status::Partial),
{
    let t = s.subrange(0, n);
    let me = method_end(s);
    let pe = path_end(s);
    lemma_run_prefix(s, n, 0, ByteClass::Token);
    if me < n {
        assert(t[me] == s[me]);
        lemma_run_prefix(s, n, me + 1, ByteClass::Path);
        if pe < n {
            assert(t[pe] == s[pe]);
            lemma_version_prefix(s, n, pe + 1);
            lemma_crlf_prefix(s, n, pe + 9);
            if pe + 11 <= n {
                lemma_block_prefix(s, n, pe + 11, capacity);
            }
        }
    }
}

/// A response that completes at byte `c` of `s` is partial on every shorter
/// prefix of `s`: no prefix completes early or fails.
pub proof fn lemma_response_prefix(s: Seq<u8>, n: int, capacity: nat)
    requires
        0 <= n <= s.len(),
        s.len() <= usize::MAX,
        response_parse(s, capacity).0 is Ok,
        response_parse(s, capacity).0->Ok_0 is Complete,
        n < response_parse(s, capacity).0->Ok_0->Complete_0,
    ensures
        response_parse(s.subrange(0, n), capacity).0 == Ok::<Status, Error>(Status::Partial),
{
    let t = s.subrange(0, n);
    lemma_version_prefix(s, n, 0);
    lemma_byte_prefix(s, n, 8, 32);
    lemma_digit_prefix(s, n, 9);
    lemma_digit_prefix(s, n, 10);
    lemma_digit_prefix(s, n, 11);
    lemma_byte_prefix(s, n, 12, 32);
    let re = reason_end(s);
    if 13 <= n {
        lemma_run_prefix(s, n, 13, ByteClass::Value);
    } else {
        assert(run(t, 13, ByteClass::Value) == 0);
    }
    lemma_crlf_prefix(s, n, re);
    if re + 2 <= n {
        lemma_block_prefix(s, n, re + 2, capacity);
    } else if re < n {
        assert(reason_end(t) == re);
    } else {
        assert(reason_end(t) >= n);
    }
}

/// A header line as a sender writes it: the name, a colon and a space, the
/// value, CR LF.
pub open spec fn field_line(field: (Seq<u8>, Seq<u8>)) -> Seq<u8> {
    field.0 + seq![COLON, SP] + field.1 + seq![CR, LF]
}

/// Header lines, one after another, followed by the empty line that ends the block.
pub open spec fn field_block(fields: Seq<(Seq<u8>, Seq<u8>)>) -> Seq<u8>
    decreases fields.len(),
{
    if fields.len() == 0 {
        seq![CR, LF]
    } else {
        field_line(fields[0]) + field_block(fields.drop_first())
    }
}

/// A field a sender may write: a non-empty token name, and a value of value bytes
/// that neither starts nor ends with a blank (it may be empty).
pub open spec fn valid_field(field: (Seq<u8>, Seq<u8>)) -> bool {
    &&& field.0.len() > 0
    &&& forall|j: int| 0 <= j < field.0.len() ==> is_token_byte(#[trigger] field.0[j])
    &&& forall|j: int| 0 <= j < field.1.len() ==> is_value_byte(#[trigger] field.1[j])
    &&& field.1.len() > 0 ==> !is_blank(field.1[0]) && !is_blank(field.1.last())
}

/// The fields read from `s` are, one by one, the given names and values.
pub open spec fn reads_fields(s: Seq<u8>, spans: Seq<FieldSpan>, fields: Seq<(Seq<u8>, Seq<u8>)>) -> bool {
    &&& spans.len() == fields.len()
    &&& forall|k: int|
        0 <= k < fields.len() ==> s.subrange(
            #[trigger] spans[k].name_start,
            spans[k].name_end,
        ) == fields[k].0 && s.subrange(spans[k].value_start, spans[k].value_end) == fields[k].1
}

/// A well-formed header block at index `i` of `s` completes just after its empty
/// line, and yields exactly its fields, when there is room for them.
pub proof fn lemma_block_complete(
    s: Seq<u8>,
    i: int,
    fields: Seq<(Seq<u8>, Seq<u8>)>,
    room: nat,
)
    requires
        0 <= i,
        i + field_block(fields).len() <= s.len() <= usize::MAX,
        s.subrange(i, i + field_block(fields).len()) == field_block(fields),
        forall|k: int| 0 <= k < fields.len() ==> valid_field(#[trigger] fields[k]),
        fields.len() <= room,
    ensures
        block_from(s, i, room).0 == Ok::<Status, Error>(
            Status::Complete((i + field_block(fields).len()) as usize),
        ),
        reads_fields(s, block_from(s, i, room).1, fields),
    decreases fields.len(),
{
    let w = field_block(fields);
    assert forall|x: int| 0 <= x < w.len() implies s[i + x] == #[trigger] w[x] by {
        assert(s.subrange(i, i + w.len())[x] == s[i + x]);
    }
    if fields.len() == 0 {
        assert(s[i] == w[0]);
        assert(s[i + 1] == w[1]);
        assert(block_from(s, i, room).1.len() == 0);
    } else {
        let f = fields[0];
        let rest = fields.drop_first();
        let name = f.0;
        let value = f.1;
        let nl: int = name.len() as int;
        let vl: int = value.len() as int;
        assert(valid_field(f));
        let line = field_line(f);
        let ne = i + name.len();
        let vs = ne + 2;
        let eol = vs + value.len();
        assert(w == line + field_block(rest));
        assert forall|x: int| 0 <= x < name.len() implies s[i + x] == #[trigger] name[x] by {
            assert(w[x] == line[x]);
        }
        assert(s[ne] == COLON) by {
            assert(w[nl] == line[nl]);
        }
        assert(s[ne + 1] == SP) by {
            assert(w[nl + 1] == line[nl + 1]);
        }
        assert forall|x: int| 0 <= x < value.len() implies s[vs + x] == #[trigger] value[x] by {
            assert(w[nl + 2 + x] == line[nl + 2 + x]);
        }
        assert(s[eol] == CR) by {
            assert(w[nl + 2 + vl] == line[nl + 2 + vl]);
        }
        assert(s[eol + 1] == LF) by {
            assert(w[nl + 3 + vl] == line[nl + 3 + vl]);
        }
        assert forall|j: int| i <= j < ne implies is_token_byte(#[trigger] s[j]) by {
            assert(s[i + (j - i)] == name[j - i]);
        }
        lemma_run_exact(s, i, nl, ByteClass::Token);
        if value.len() > 0 {
            assert(s[vs + 0] == value[0]);
            assert(s[vs + (vl - 1)] == value[vl - 1]);
        }
        lemma_run_exact(s, ne + 1, 1, ByteClass::Blank);
        assert forall|j: int| vs <= j < eol implies is_value_byte(#[trigger] s[j]) by {
            assert(s[vs + (j - vs)] == value[j - vs]);
        }
        lemma_run_exact(s, vs, vl, ByteClass::Value);
        assert(trailing_blanks(s, vs, eol) == 0);
        let next = eol + 2;
        let wr = field_block(rest);
        assert(next + wr.len() == i + w.len());
        assert(s.subrange(next, next + wr.len()) =~= wr) by {
            assert forall|x: int| 0 <= x < wr.len() implies s.subrange(next, next + wr.len())[x]
                == wr[x] by {
                let lx: int = line.len() + x;
                assert(w[lx] == wr[x]);
                assert(s[i + lx] == w[lx]);
            }
        }
        assert forall|k: int| 0 <= k < rest.len() implies valid_field(#[trigger] rest[k]) by {
            assert(rest[k] == fields[k + 1]);
        }
        lemma_block_complete(s, next, rest, (room - 1) as nat);
        let spans = block_from(s, i, room).1;
        let rspans = block_from(s, next, (room - 1) as nat).1;
        assert(spans == seq![spans[0]] + rspans);
        assert(s.subrange(i, ne) =~= name);
        assert(s.subrange(vs, eol) =~= value);
        assert forall|k: int| 0 <= k < fields.len() implies s.subrange(
            #[trigger] spans[k].name_start,
            spans[k].name_end,
        ) == fields[k].0 && s.subrange(spans[k].value_start, spans[k].value_end) == fields[k].1 by {
            if k > 0 {
                assert(spans[k] == rspans[k - 1]);
                assert(fields[k] == rest[k - 1]);
            }
        }
        assert(spans.len() == fields.len());
        assert(reads_fields(s, spans, fields));
    }
}

/// The request line a sender writes: method, space, path, space, `HTTP/1.`,
/// the minor digit, CR LF.
pub open spec fn request_head(method: Seq<u8>, path: Seq<u8>, minor: u8) -> Seq<u8> {
    method + seq![SP] + path + seq![SP] + http1() + seq![(48 + minor) as u8, CR, LF]
}

/// A well-formed request, parsed in one call, completes after exactly all of its
/// bytes, and its method, path, minor version and fields are the ones written.
pub proof fn lemma_request_complete(
    method: Seq<u8>,
    path: Seq<u8>,
    minor: u8,
    fields: Seq<(Seq<u8>, Seq<u8>)>,
    capacity: nat,
)
    requires
        method.len() > 0,
        forall|j: int| 0 <= j < method.len() ==> is_token_byte(#[trigger] method[j]),
        path.len() > 0,
        forall|j: int| 0 <= j < path.len() ==> is_path_byte(#[trigger] path[j]),
        minor <= 9,
        forall|k: int| 0 <= k < fields.len() ==> valid_field(#[trigger] fields[k]),
        fields.len() <= capacity,
        request_head(method, path, minor).len() + field_block(fields).len() <= usize::MAX,
    ensures
        ({
            let s = request_head(method, path, minor) + field_block(fields);
            &&& request_parse(s, capacity).0 == Ok::<Status, Error>(Status::Complete(s.len() as usize))
            &&& request_line(s) is Ends
            &&& s.subrange(0, method_end(s)) == method
            &&& s.subrange(method_end(s) + 1, path_end(s)) == path
            &&& request_minor(s) == minor
            &&& reads_fields(s, request_parse(s, capacity).1, fields)
        }),
{
    let head = request_head(method, path, minor);
    let fb = field_block(fields);
    let s = head + fb;
    let ml: int = method.len() as int;
    let pl: int = path.len() as int;
    let me = ml;
    let pe = ml + 1 + pl;
    assert forall|x: int| 0 <= x < head.len() implies s[x] == #[trigger] head[x] by {}
    assert forall|j: int| 0 <= j < ml implies is_token_byte(#[trigger] s[j]) by {
        assert(head[j] == method[j]);
    }
    assert(s[me] == SP);
    lemma_run_exact(s, 0, ml, ByteClass::Token);
    assert forall|j: int| me + 1 <= j < pe implies is_path_byte(#[trigger] s[j]) by {
        assert(head[j] == path[j - me - 1]);
    }
    assert(s[pe] == SP);
    lemma_run_exact(s, me + 1, pl, ByteClass::Path);
    assert(method_end(s) == me);
    assert(path_end(s) == pe);
    assert forall|k: int| 0 <= k < 7 implies #[trigger] s[pe + 1 + k] == http1()[k] by {
        assert(head[pe + 1 + k] == http1()[k]);
    }
    assert(s[pe + 8] == (48 + minor) as u8);
    assert(s[pe + 9] == CR);
    assert(s[pe + 10] == LF);
    assert(!exists|k: int| 0 <= k < 7 && pe + 1 + k < s.len() && #[trigger] s[pe + 1 + k] != http1()[k]);
    assert(request_line(s) == Piece::Ends((pe + 11) as usize));
    assert(s.subrange(0, me) =~= method);
    assert(s.subrange(me + 1, pe) =~= path);
    assert(head.len() == pe + 11);
    assert(s.subrange(pe + 11, pe + 11 + fb.len()) =~= fb);
    lemma_block_complete(s, pe + 11, fields, capacity);
}

/// Every proper prefix of a well-formed request is partial; the whole of it
/// completes after its last byte.
pub proof fn lemma_request_prefixes_partial(
    method: Seq<u8>,
    path: Seq<u8>,
    minor: u8,
    fields: Seq<(Seq<u8>, Seq<u8>)>,
    capacity: nat,
    n: int,
)
    requires
        method.len() > 0,
        forall|j: int| 0 <= j < method.len() ==> is_token_byte(#[trigger] method[j]),
        path.len() > 0,
        forall|j: int| 0 <= j < path.len() ==> is_path_byte(#[trigger] path[j]),
        minor <= 9,
        forall|k: int| 0 <= k < fields.len() ==> valid_field(#[trigger] fields[k]),
        fields.len() <= capacity,
        request_head(method, path, minor).len() + field_block(fields).len() <= usize::MAX,
        0 <= n < request_head(method, path, minor).len() + field_block(fields).len(),
    ensures
        request_parse((request_head(method, path, minor) + field_block(fields)).subrange(0, n), capacity).0
            == Ok::<Status, Error>(Status::Partial),
{
    lemma_request_complete(method, path, minor, fields, capacity);
    lemma_request_prefix(request_head(method, path, minor) + field_block(fields), n, capacity);
}

/// Every proper prefix of a well-formed header block is partial; the whole of it
/// completes after its last byte.
pub proof fn lemma_block_prefixes_partial(fields: Seq<(Seq<u8>, Seq<u8>)>, capacity: nat, n: int)
    requires
        forall|k: int| 0 <= k < fields.len() ==> valid_field(#[trigger] fields[k]),
        fields.len() <= capacity,
        field_block(fields).len() <= usize::MAX,
        0 <= n < field_block(fields).len(),
    ensures
        headers_outcome(field_block(fields), capacity) == Ok::<Status, Error>(
            Status::Complete(field_block(fields).len() as usize),
        ),
        headers_outcome(field_block(fields).subrange(0, n), capacity) == Ok::<Status, Error>(
            Status::Partial,
        ),
{
    let s = field_block(fields);
    assert(s.subrange(0, s.len() as int) =~= s);
    lemma_block_complete(s, 0, fields, capacity);
    lemma_block_prefix(s, n, 0, capacity);
}

} // verus!
