//! The decision oracle: a finite supply of bytes from which the driver draws
//! its choices.

use arbtest::arbitrary::Unstructured;
use vstd::prelude::*;

verus! {

/// `arbitrary::Unstructured`, the oracle: a cursor over a slice of bytes.
/// Nothing is known of one but through [`pending`].
#[verifier::external_type_specification]
#[verifier::external_body]
pub struct ExUnstructured<'a>(Unstructured<'a>);

/// The bytes that an oracle has not given out yet, next one first.
pub uninterp spec fn pending(oracle: Unstructured<'_>) -> Seq<u8>;

/// Whether a byte of an oracle's input stands for `true`: whether it is odd.
pub open spec fn says_go(byte: u8) -> bool {
    byte % 2 == 1
}

/// The answer that an oracle with `bytes` left gives when asked for a flag:
/// what its next byte stands for, and `false` where it has none left.
pub open spec fn flag_of(bytes: Seq<u8>) -> bool {
    bytes.len() > 0 && says_go(bytes[0])
}

/// What an oracle with `bytes` left has left after it was asked for a flag:
/// a flag costs one byte, as long as there is one.
pub open spec fn after_flag(bytes: Seq<u8>) -> Seq<u8> {
    if bytes.len() > 0 {
        bytes.drop_first()
    } else {
        bytes
    }
}

/// `Unstructured::new`: an oracle that gives out `data`, first byte first.
#[verifier::external_body]
pub(crate) fn over<'a>(data: &'a [u8]) -> (oracle: Unstructured<'a>)
    ensures
        pending(oracle) == data@,
{
    Unstructured::new(data)
}

/// `Unstructured::len`: how many bytes are left.
#[verifier::external_body]
pub(crate) fn left(oracle: &Unstructured<'_>) -> (len: usize)
    ensures
        len == pending(*oracle).len(),
{
    oracle.len()
}

/// `Unstructured::is_empty`: whether no byte is left.
#[verifier::external_body]
pub(crate) fn is_exhausted(oracle: &Unstructured<'_>) -> (exhausted: bool)
    ensures
        exhausted == (pending(*oracle).len() == 0),
{
    oracle.is_empty()
}

/// `Unstructured::arbitrary` for a `bool`: takes the next byte off the
/// oracle and answers whether its lowest bit is set. An exhausted oracle
/// answers `false` and stays as it is. The call never fails.
#[verifier::external_body]
pub(crate) fn next_flag(oracle: &mut Unstructured<'_>) -> (flag: Option<bool>)
    ensures
        flag == Some(flag_of(pending(*old(oracle)))),
        pending(*final(oracle)) == after_flag(pending(*old(oracle))),
{
    match oracle.arbitrary::<bool>() {
        Ok(flag) => Some(flag),
        Err(_) => None,
    }
}

} // verus!
