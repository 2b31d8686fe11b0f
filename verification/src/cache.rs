//! The disk cache's naming scheme.
//!
//! Assembled audio is cached in one file per track under a well-known
//! cache directory; the file name is derived deterministically from the
//! track id. The file system itself is driven by the unverified shell;
//! this module fixes what the file is called.

use vstd::prelude::*;
use vstd::string::*;

verus! {

/// Decimal digits of `n`, most significant first.
pub open spec fn dec_bytes(n: nat) -> Seq<u8>
    decreases n,
{
    if n < 10 {
        seq![(48 + n) as u8]
    } else {
        dec_bytes(n / 10).push((48 + n % 10) as u8)
    }
}

/// The cache file name for a track: its id in decimal, then `.audio`.
pub open spec fn cache_file_name_spec(track_id: u64) -> Seq<u8> {
    dec_bytes(track_id as nat) + ".audio".spec_bytes()
}

/// Append the decimal digits of `n`.
fn push_dec(digits: &mut Vec<u8>, n: u64)
    ensures
        final(digits)@ == old(digits)@ + dec_bytes(n as nat),
    decreases n,
{
    if n < 10 {
        digits.push(48 + (n as u8));
        proof {
            assert(digits@ =~= old(digits)@ + dec_bytes(n as nat));
        }
    } else {
        push_dec(digits, n / 10);
        digits.push(48 + ((n % 10) as u8));
        proof {
            assert(digits@ =~= old(digits)@ + dec_bytes(n as nat));
        }
    }
}

/// Derive the cache file name for a track id. The caller roots it under
/// the platform cache directory's audio subdirectory.
pub fn cache_file_name(track_id: u64) -> (r: Vec<u8>)
    ensures
        r@ == cache_file_name_spec(track_id),
{
    let mut name: Vec<u8> = Vec::new();
    push_dec(&mut name, track_id);
    let ghost digits = name@;
    let suffix = ".audio".as_bytes();
    let mut i: usize = 0;
    while i < suffix.len()
        invariant
            i <= suffix@.len(),
            name@ =~= digits + suffix@.subrange(0, i as int),
        decreases suffix@.len() - i,
    {
        name.push(suffix[i]);
        assert(name@ =~= digits + suffix@.subrange(0, i + 1));
        i += 1;
    }
    proof {
        assert(suffix@.subrange(0, suffix@.len() as int) =~= suffix@);
        assert(name@ =~= cache_file_name_spec(track_id));
    }
    name
}

} // verus!
