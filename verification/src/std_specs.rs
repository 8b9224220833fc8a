//! What this library takes on trust of the standard library.

use vstd::prelude::*;
use vstd::string::StringSliceAdditionalSpecFns;
use vstd::utf8::valid_utf8;

verus! {

/// The error of `core::str::from_utf8`. Nothing is read from it.
#[verifier::external_type_specification]
#[verifier::external_body]
pub struct ExUtf8Error(core::str::Utf8Error);

/// `core::str::from_utf8` succeeds on exactly the byte sequences that are
/// valid UTF-8, and the string slice it then gives is made of the very bytes
/// it was given.
pub assume_specification[ core::str::from_utf8 ](v: &[u8]) -> (res: Result<
    &str,
    core::str::Utf8Error,
>)
    ensures
        res is Ok <==> valid_utf8(v@),
        res matches Ok(s) ==> s.spec_bytes() == v@,
;

/// `<[T]>::first_chunk_mut` borrows the first `N` items of the slice as an
/// array, and gives `None` where the slice has fewer. What is written through
/// the array is written to the head of the slice; the items behind it stay.
pub assume_specification<T, const N: usize>[ <[T]>::first_chunk_mut::<N> ](
    slice: &mut [T],
) -> (res: Option<&mut [T; N]>)
    ensures
        res is Some <==> old(slice)@.len() >= N,
        res matches Some(chunk) ==> chunk@ == old(slice)@.subrange(0, N as int) && final(slice)@
            == final(chunk)@ + old(slice)@.subrange(N as int, old(slice)@.len() as int),
        res is None ==> final(slice)@ == old(slice)@,
;

} // verus!
