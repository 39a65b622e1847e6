//! The length check of bulk plain-old-data vectors: their wire form is a
//! byte string holding the elements' bytes back to back.
use vstd::prelude::*;

verus! {

/// The number of elements of `elem_size` bytes in a byte string of
/// `byte_len` bytes, or `None` when elements have no size or the bytes are
/// not a whole number of elements.
pub fn element_count(byte_len: usize, elem_size: usize) -> (n: Option<usize>)
    ensures
        n is Some <==> elem_size > 0 && byte_len % elem_size == 0,
        n matches Some(k) ==> k * elem_size == byte_len,
{
    if elem_size == 0 || byte_len % elem_size != 0 {
        return None;
    }
    let k = byte_len / elem_size;
    assert(k * elem_size == byte_len) by (nonlinear_arith)
        requires
            elem_size > 0,
            byte_len % elem_size == 0,
            k == byte_len / elem_size,
    ;
    Some(k)
}

} // verus!
