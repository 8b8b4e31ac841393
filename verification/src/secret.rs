//! Wiping buffers that held a PIN.

use vstd::prelude::*;

use zeroize::Zeroize;

verus! {

/// `zeroize::Zeroize::zeroize` on a byte vector: overwrites its bytes and
/// its spare capacity with zeros, then clears it. The contract states the
/// one thing visible to the logic, that the vector is left empty; the
/// overwriting of the memory itself is left unsaid.
#[verifier::external_body]
pub(crate) fn wipe(buf: &mut Vec<u8>)
    ensures
        final(buf)@ == Seq::<u8>::empty(),
{
    buf.zeroize();
}

} // verus!
