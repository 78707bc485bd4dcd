//! The only calls into outside crates: the OS entropy source, SHA-256,
//! and hex encoding.  Each stands behind one trusted wrapper whose
//! contract states what the outside crate's documentation promises.

use crate::codec::{hex_bytes, hex_of, hex_valid};
use rand::RngCore;
use vstd::prelude::*;

verus! {

/// The SHA-256 digest of a byte sequence.  The digest is a function of
/// the input bytes alone; nothing further is claimed of its value.
pub uninterp spec fn sha256_of(data: Seq<u8>) -> Seq<u8>;

/// Relies on sha2::Sha256 (the Digest API): a 32-byte digest that
/// depends on the input bytes alone.
#[verifier::external_body]
pub(crate) fn sha256(data: &Vec<u8>) -> (r: Vec<u8>)
    ensures
        r@ == sha256_of(data@),
        r@.len() == 32,
{
    let digest = <sha2::Sha256 as sha2::Digest>::digest(data.as_slice());
    digest.to_vec()
}

/// Relies on rand's OsRng (RngCore::try_fill_bytes): fills the buffer
/// from the operating system's entropy source; `Err` when that source
/// is unavailable.  Nothing is claimed of the bytes themselves.
#[verifier::external_body]
pub(crate) fn random_bytes(n: usize) -> (r: Option<Vec<u8>>)
    ensures
        match r {
            Some(v) => v@.len() == n,
            None => true,
        },
{
    let mut buf = vec![0u8; n];
    match rand::rngs::OsRng.try_fill_bytes(&mut buf) {
        Ok(()) => Some(buf),
        Err(_) => None,
    }
}

/// Relies on hex::encode: lowercase hex, two digits per byte, high
/// nibble first.
#[verifier::external_body]
pub(crate) fn hex_encode(data: &Vec<u8>) -> (r: String)
    ensures
        r@ == hex_of(data@),
{
    hex::encode(data.as_slice())
}

/// Relies on hex::decode: accepts digits of either case, rejects an
/// odd length and any non-hex character.
#[verifier::external_body]
pub(crate) fn hex_decode(s: &str) -> (r: Option<Vec<u8>>)
    ensures
        match r {
            Some(v) => hex_valid(s@) && v@ == hex_bytes(s@),
            None => !hex_valid(s@),
        },
{
    hex::decode(s).ok()
}

} // verus!
