//! What the relay asks of the bytes it forwards.
use vstd::prelude::*;
use vstd::utf8::valid_utf8;

verus! {

/// A byte that a reader lets through: anything but an ASCII control
/// character below the space.
pub open spec fn is_forwarded(byte: u8) -> bool {
    byte >= 32
}

/// `bytes` without the bytes that a reader drops, the rest in order.
pub open spec fn sanitized(bytes: Seq<u8>) -> Seq<u8> {
    bytes.filter(|byte: u8| is_forwarded(byte))
}

/// Drops the control bytes from one chunk read from a connection.
pub fn sanitize(chunk: &[u8]) -> (clean: Vec<u8>)
    ensures
        clean@ == sanitized(chunk@),
{
    let mut clean: Vec<u8> = Vec::new();
    let mut i: usize = 0;
    while i < chunk.len()
        invariant
            i <= chunk.len(),
            clean@ == sanitized(chunk@.take(i as int)),
        decreases chunk.len() - i,
    {
        proof {
            let pred = |byte: u8| is_forwarded(byte);
            chunk@.take(i as int).lemma_filter_push(chunk@[i as int], pred);
            assert(chunk@.take(i + 1) =~= chunk@.take(i as int).push(chunk@[i as int]));
        }
        if chunk[i] >= 32 {
            clean.push(chunk[i]);
        }
        i += 1;
    }
    assert(chunk@.take(i as int) =~= chunk@);
    clean
}

/// Says whether `bytes` decode as text, by `core::str::from_utf8`: that
/// function accepts a byte string if and only if it is well-formed UTF-8.
#[verifier::external_body]
pub(crate) fn decodes_as_text(bytes: &[u8]) -> (ok: bool)
    ensures
        ok == valid_utf8(bytes@),
{
    core::str::from_utf8(bytes).is_ok()
}

} // verus!
