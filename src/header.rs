//! A parsed header field: two views into the parsed buffer.
use vstd::prelude::*;
use vstd::string::StringSliceAdditionalSpecFns;
use vstd::utf8::{pop_first_scalar, valid_utf8};

verus! {

/// Reads a name or a value of a parsed field.
pub trait Header {
    /// The bytes of the field name.
    spec fn name_view(&self) -> Seq<u8>;

    /// The bytes of the field value.
    spec fn value_view(&self) -> Seq<u8>;

    /// The field name as text; empty if its bytes were not UTF-8.
    fn name(&self) -> (r: &str)
        ensures
            valid_utf8(self.name_view()) ==> r.spec_bytes() == self.name_view(),
    ;

    /// The field value, with the blanks that surround it left out.
    fn value(&self) -> (r: &[u8])
        ensures
            r@ == self.value_view(),
    ;
}

/// One header line of the buffer `'buf`, held as views into it: nothing is copied.
#[derive(Clone, Copy)]
pub struct HeaderField<'buf> {
    pub name: &'buf [u8],
    pub value: &'buf [u8],
}

/// ASCII bytes are UTF-8, one byte to a character.
pub proof fn lemma_ascii_valid_utf8(b: Seq<u8>)
    requires
        forall|j: int| 0 <= j < b.len() ==> #[trigger] b[j] < 128,
    ensures
        valid_utf8(b),
    decreases b.len(),
{
    if b.len() > 0 {
        let x = b[0];
        assert(x & 0x7F <= 0x7F) by (bit_vector);
        assert(pop_first_scalar(b) =~= b.subrange(1, b.len() as int));
        lemma_ascii_valid_utf8(b.subrange(1, b.len() as int));
    }
}

/// Relies on std::str::from_utf8: it succeeds exactly on UTF-8 input and then
/// hands back a view of the same bytes.
#[verifier::external_body]
pub(crate) fn utf8_text(b: &[u8]) -> (r: Option<&str>)
    ensures
        r.is_some() <==> valid_utf8(b@),
        r.is_some() ==> r.unwrap().spec_bytes() == b@,
{
    std::str::from_utf8(b).ok()
}

impl<'buf> Header for HeaderField<'buf> {
    open spec fn name_view(&self) -> Seq<u8> {
        self.name@
    }

    open spec fn value_view(&self) -> Seq<u8> {
        self.value@
    }

    fn name(&self) -> (r: &str) {
        match utf8_text(self.name) {
            Some(t) => t,
            None => "",
        }
    }

    fn value(&self) -> (r: &[u8]) {
        self.value
    }
}

} // verus!
