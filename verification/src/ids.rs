//! Identifiers: host ids and the random numbers they are drawn from.
//!
//! The alphabet has no look-alike characters, so codes can be read aloud.

use vstd::prelude::*;
use rand::Rng;

verus! {

/// The characters a host id is made of.
/// (`ABCDEFGHJKLMNPQRSTUVWXYZ23456789` as ASCII codes.)
pub const ID_ALPHABET: [u8; 32] = [
    65, 66, 67, 68, 69, 70, 71, 72, 74, 75, 76, 77, 78, 80, 81, 82,
    83, 84, 85, 86, 87, 88, 89, 90, 50, 51, 52, 53, 54, 55, 56, 57,
];

/// A uniformly random number in `lo..=hi` (`rand::thread_rng().gen_range`).
/// Only the range is promised.
#[verifier::external_body]
pub(crate) fn random_in_range(lo: u64, hi: u64) -> (r: u64)
    requires
        lo <= hi,
    ensures
        lo <= r <= hi,
{
    rand::thread_rng().gen_range(lo..=hi)
}

/// Whether `c` is one of the id characters.
pub open spec fn is_id_char(c: char) -> bool {
    exists|j: int| 0 <= j < 32 && c == (#[trigger] ID_ALPHABET@[j]) as char
}

/// The length of an id asked for with `len`: never shorter than four.
pub open spec fn id_len(len: usize) -> nat {
    if len < 4 {
        4
    } else {
        len as nat
    }
}

/// A fresh random host id of `len` characters (at least four), each from
/// [`ID_ALPHABET`].
pub fn new_host_id(len: usize) -> (id: String)
    ensures
        id@.len() == id_len(len),
        forall|i: int| 0 <= i < id@.len() ==> is_id_char(#[trigger] id@[i]),
{
    let n: usize = if len < 4 {
        4
    } else {
        len
    };
    let mut cs: Vec<char> = Vec::new();
    let mut i: usize = 0;
    while i < n
        invariant
            i <= n,
            cs@.len() == i,
            forall|k: int| 0 <= k < i ==> is_id_char(#[trigger] cs@[k]),
        decreases n - i,
    {
        let j = random_in_range(0, 31) as usize;
        let c = ID_ALPHABET[j] as char;
        assert(is_id_char(c)) by {
            assert(c == ID_ALPHABET@[j as int] as char);
        }
        cs.push(c);
        i = i + 1;
    }
    crate::text::string_of(cs.as_slice())
}

} // verus!
