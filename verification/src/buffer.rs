//! The per-connection byte buffer.
//!
//! A connection reads into a `bytes::BytesMut` and writes out of it. This
//! module is the only place that calls into that type. What a buffer holds is
//! known to the verifier as [`contents`]; the three calls below are believed
//! to treat it as their contracts say.

use bytes::BufMut;
use bytes::BytesMut;
use vstd::prelude::*;

verus! {

/// Initial capacity of a connection's buffer, in bytes.
pub const BUFFER_SIZE: usize = 1024;

/// Makes `bytes::BytesMut` known to the verifier as a type whose inside it
/// does not see.
#[verifier::external_type_specification]
#[verifier::external_body]
pub struct ExBytesMut(bytes::BytesMut);

/// The bytes that a buffer holds, in the order in which they will be written
/// out.
pub uninterp spec fn contents(buf: BytesMut) -> Seq<u8>;

/// Calls `BytesMut::with_capacity`. Believed: the new buffer holds no bytes,
/// whatever capacity was asked for.
#[verifier::external_body]
fn with_capacity(capacity: usize) -> (buf: BytesMut)
    ensures
        contents(buf) == Seq::<u8>::empty(),
{
    BytesMut::with_capacity(capacity)
}

/// Calls `BytesMut::len`. Believed: it returns the number of bytes held.
#[verifier::external_body]
pub(crate) fn len(buf: &BytesMut) -> (n: usize)
    ensures
        n == contents(*buf).len(),
{
    buf.len()
}

/// Calls `BufMut::put_slice` on a `BytesMut`. Believed: the bytes of `src` are
/// appended behind what the buffer held, and nothing else changes. The call is
/// documented to panic when the buffer cannot grow by `src.len()`, which for
/// this type means growing past `isize::MAX` bytes; the precondition keeps
/// away from that. Exhausted memory is not covered here, as it is not covered
/// for `Vec`.
#[verifier::external_body]
fn put_slice(buf: &mut BytesMut, src: &[u8])
    requires
        contents(*old(buf)).len() + src@.len() <= isize::MAX,
    ensures
        contents(*final(buf)) == contents(*old(buf)) + src@,
{
    buf.put_slice(src)
}

/// An empty buffer with room for [`BUFFER_SIZE`] bytes.
pub fn new_buffer() -> (buf: BytesMut)
    ensures
        contents(buf) == Seq::<u8>::empty(),
{
    with_capacity(BUFFER_SIZE)
}

/// Whether `extra` more bytes can be appended to a buffer that holds `held`.
pub open spec fn fits(held: Seq<u8>, extra: Seq<u8>) -> bool {
    held.len() + extra.len() <= isize::MAX
}

/// Appends `extra` to the buffer if the result stays within what a buffer can
/// hold, and says whether it did. A buffer that cannot take `extra` is left
/// as it was.
pub fn append(buf: &mut BytesMut, extra: &[u8]) -> (done: bool)
    ensures
        done == fits(contents(*old(buf)), extra@),
        contents(*final(buf)) == if done {
            contents(*old(buf)) + extra@
        } else {
            contents(*old(buf))
        },
{
    let have: usize = len(buf);
    let limit: usize = usize::MAX / 2;
    if extra.len() <= limit && have <= limit - extra.len() {
        put_slice(buf, extra);
        true
    } else {
        false
    }
}

} // verus!
