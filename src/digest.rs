use vstd::prelude::*;

verus! {

#[verifier::external_type_specification]
#[verifier::external_body]
pub struct ExMd5Context(md5::Context);

/// The MD5 digest of some bytes, written as lowercase hex.
pub uninterp spec fn md5_hex_of(content: Seq<u8>) -> Seq<char>;

/// The bytes that an MD5 context has been fed, in order.
pub uninterp spec fn consumed_of(c: md5::Context) -> Seq<u8>;

/// Whether `c` is a lowercase hex digit.
pub open spec fn is_lower_hex(c: char) -> bool {
    ('0' <= c && c <= '9') || ('a' <= c && c <= 'f')
}

/// Whether `s` is the 32 lowercase hex digits of an MD5 digest.
pub open spec fn is_md5_hex(s: Seq<char>) -> bool {
    &&& s.len() == 32
    &&& forall|i: int| 0 <= i < s.len() ==> is_lower_hex(#[trigger] s[i])
}

/// Relies on `md5::Context::new`: a context that has been fed nothing.
#[verifier::external_body]
fn md5_start() -> (r: md5::Context)
    ensures
        consumed_of(r) == Seq::<u8>::empty(),
{
    md5::Context::new()
}

/// Relies on `md5::Context::consume`: the bytes of `data` are fed after
/// those already fed.
#[verifier::external_body]
fn md5_consume(c: &mut md5::Context, data: &[u8])
    ensures
        consumed_of(*final(c)) == consumed_of(*old(c)) + data@,
{
    c.consume(data)
}

/// Relies on `md5::Context::compute`, on a copy of the context, and on the
/// `LowerHex` form of its `Digest`: sixteen bytes, each written as two
/// lowercase hex digits.
#[verifier::external_body]
fn md5_finish(c: &md5::Context) -> (r: String)
    ensures
        r@ == md5_hex_of(consumed_of(*c)),
        is_md5_hex(r@),
{
    format!("{:x}", c.clone().compute())
}

/// An MD5 accumulator that content is streamed into, chunk by chunk.
pub struct Fingerprint {
    ctx: md5::Context,
}

impl Fingerprint {
    /// The bytes fed so far, in order.
    pub closed spec fn consumed(&self) -> Seq<u8> {
        consumed_of(self.ctx)
    }

    /// An accumulator that has been fed nothing.
    pub fn new() -> (r: Fingerprint)
        ensures
            r.consumed() == Seq::<u8>::empty(),
    {
        Fingerprint { ctx: md5_start() }
    }

    /// Feeds one chunk after those already fed.
    pub fn consume(&mut self, chunk: &[u8])
        ensures
            final(self).consumed() == old(self).consumed() + chunk@,
    {
        md5_consume(&mut self.ctx, chunk)
    }

    /// The digest of all the bytes fed so far, as 32 lowercase hex digits.
    pub fn hex(&self) -> (r: String)
        ensures
            r@ == md5_hex_of(self.consumed()),
            is_md5_hex(r@),
    {
        md5_finish(&self.ctx)
    }
}

} // verus!
