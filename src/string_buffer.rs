//! A text buffer of fixed capacity for formatting without allocation.
use vstd::prelude::*;
use vstd::utf8::{valid_utf8, encode_utf8, decode_utf8, encode_utf8_decode_utf8, decode_utf8_encode_utf8, encode_utf8_valid_utf8};
use vstd::string::StringSliceAdditionalSpecFns;

verus! {

#[verifier::external_type_specification]
#[verifier::external_body]
pub struct ExFmtError(core::fmt::Error);

/// Relies on `core::str::from_utf8`: it accepts exactly the byte slices that are valid UTF-8,
/// and the string it returns holds those bytes.
#[verifier::external_body]
fn str_from_utf8(bytes: &[u8]) -> (r: Option<&str>)
    ensures
        r is Some <==> valid_utf8(bytes@),
        r matches Some(s) ==> s.spec_bytes() == bytes@,
{
    core::str::from_utf8(bytes).ok()
}

/// Relies on `core::fmt::Error`, the unit error of formatting, to report a full buffer.
#[verifier::external_body]
fn fmt_error() -> (r: core::fmt::Error) {
    core::fmt::Error
}

proof fn lemma_encode_concat(a: Seq<char>, b: Seq<char>)
    ensures
        encode_utf8(a + b) == encode_utf8(a) + encode_utf8(b),
    decreases a.len(),
{
    if a.len() == 0 {
        assert(a + b =~= b);
        assert(encode_utf8(a) =~= Seq::<u8>::empty());
        assert(encode_utf8(a) + encode_utf8(b) =~= encode_utf8(b));
    } else {
        assert((a + b).drop_first() =~= a.drop_first() + b);
        lemma_encode_concat(a.drop_first(), b);
        assert(encode_utf8(a + b) =~= encode_utf8(a) + encode_utf8(b));
    }
}

/// Text of at most `N` bytes, held inline.
pub struct FixedBuffer<const N: usize> {
    buffer: [u8; N],
    pos: usize,
}

impl<const N: usize> FixedBuffer<N> {
    /// The bytes in use fit the buffer and are valid UTF-8.
    #[verifier::type_invariant]
    spec fn inv(&self) -> bool {
        self.pos <= N && valid_utf8(self.buffer@.take(self.pos as int))
    }

    /// The text written since the buffer was made or cleared.
    pub closed spec fn text(&self) -> Seq<char> {
        decode_utf8(self.buffer@.take(self.pos as int))
    }

    /// How many bytes of the buffer the text takes.
    pub closed spec fn used(&self) -> nat {
        self.pos as nat
    }

    /// An empty buffer.
    pub fn new() -> (r: FixedBuffer<N>)
        ensures
            r.text() == Seq::<char>::empty(),
            r.used() == 0,
    {
        let buffer: [u8; N] = [0; N];
        assert(buffer@.take(0) =~= Seq::<u8>::empty());
        FixedBuffer { buffer, pos: 0 }
    }

    /// The text written so far.
    pub fn as_str(&self) -> (r: &str)
        ensures
            r@ == self.text(),
    {
        proof {
            use_type_invariant(self);
        }
        let used = vstd::slice::slice_subrange(self.buffer.as_slice(), 0, self.pos);
        proof {
            assert(used@ =~= self.buffer@.take(self.pos as int));
        }
        match str_from_utf8(used) {
            Some(s) => {
                proof {
                    decode_utf8_encode_utf8(used@);
                    encode_utf8_decode_utf8(s@);
                }
                s
            },
            None => "",
        }
    }

    /// Empties the buffer.
    pub fn clear(&mut self)
        ensures
            final(self).text() == Seq::<char>::empty(),
            final(self).used() == 0,
    {
        assert(self.buffer@.take(0) =~= Seq::<u8>::empty());
        self.pos = 0;
    }

    /// Appends `s`, or fails and leaves the buffer as it was when `s` does not fit.
    pub fn write_str(&mut self, s: &str) -> (r: Result<(), core::fmt::Error>)
        ensures
            r is Ok <==> old(self).used() + s.spec_bytes().len() <= N,
            r is Ok ==> final(self).text() == old(self).text() + s@,
            r is Ok ==> final(self).used() == old(self).used() + s.spec_bytes().len(),
            r is Err ==> final(self).text() == old(self).text(),
            r is Err ==> final(self).used() == old(self).used(),
    {
        proof {
            use_type_invariant(&*self);
        }
        let bytes = s.as_bytes();
        if bytes.len() > N - self.pos {
            return Err(fmt_error());
        }
        let ghost old_used = self.buffer@.take(self.pos as int);
        let start = self.pos;
        let mut buf: [u8; N] = self.buffer;
        let mut i: usize = 0;
        while i < bytes.len()
            invariant
                start + bytes@.len() <= N,
                i <= bytes@.len(),
                buf@.len() == N,
                buf@.take(start as int) == old_used,
                forall|j: int| 0 <= j < i ==> buf@[start + j] == bytes@[j],
            decreases bytes@.len() - i,
        {
            let ghost before = buf@;
            buf[start + i] = bytes[i];
            proof {
                assert(buf@.take(start as int) =~= before.take(start as int));
            }
            i = i + 1;
        }
        let end = start + bytes.len();
        proof {
            let text0 = decode_utf8(old_used);
            decode_utf8_encode_utf8(old_used);
            assert(buf@.take(end as int) =~= old_used + bytes@);
            lemma_encode_concat(text0, s@);
            encode_utf8_valid_utf8(text0 + s@);
            encode_utf8_decode_utf8(text0 + s@);
        }
        *self = FixedBuffer { buffer: buf, pos: end };
        Ok(())
    }
}

impl<const N: usize> core::fmt::Write for FixedBuffer<N> {
    fn write_str(&mut self, s: &str) -> core::fmt::Result {
        FixedBuffer::write_str(self, s)
    }
}

} // verus!
