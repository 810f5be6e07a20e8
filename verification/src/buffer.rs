//! Maintenance of ordered buffers.
//!
//! A session's pending output lives in an ordered buffer; once a prefix of it
//! has been transmitted, that prefix is discarded while the remaining
//! elements keep their relative order.

use vstd::prelude::*;

verus! {

/// An attempt to discard more elements than the buffer contained.
#[derive(Clone, Copy, Debug, PartialEq, Eq, Structural)]
pub struct DiscardError {
    /// How many elements the caller asked to discard.
    pub discard_qty: usize,
    /// How many elements the buffer actually contained.
    pub len: usize,
}

/// Removes and discards the given number of elements from the front of the
/// buffer.
///
/// On success the remaining elements are exactly the original elements with
/// the first `discard_qty` dropped, in their original relative order. Asking
/// to discard more elements than the buffer contains fails with a distinct
/// error and leaves the buffer untouched.
pub fn discard_front<T>(vec: &mut Vec<T>, discard_qty: usize) -> (r: Result<(), DiscardError>)
    ensures
        match r {
            Ok(()) => discard_qty <= old(vec)@.len() && final(vec)@ == old(vec)@.skip(
                discard_qty as int,
            ),
            Err(e) => discard_qty > old(vec)@.len() && final(vec)@ == old(vec)@ && e
                == (DiscardError { discard_qty, len: old(vec)@.len() as usize }),
        },
{
    let len = vec.len();
    if discard_qty > len {
        return Err(DiscardError { discard_qty, len });
    }
    let tail = vec.split_off(discard_qty);
    *vec = tail;
    Ok(())
}

} // verus!
