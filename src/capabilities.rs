//! Validation of the system's page size and descriptor-count limit, and
//! alignment to page boundaries.
use vstd::prelude::*;

use vstd::arithmetic::power2::{
    lemma2_to64, lemma2_to64_rest, lemma_pow2_strictly_increases, pow2,
};
use vstd::bits::{low_bits_mask, lemma_u64_low_bits_mask_is_mod, lemma_u64_pow2_no_overflow};

use crate::errors::{Error, ErrorKind};

verus! {

/// `n` is a power of two that a `u64` can hold.
pub open spec fn is_power_of_two(n: u64) -> bool {
    exists|k: nat| k < 64 && n == pow2(k)
}

/// Relies on `u64::is_power_of_two`: true exactly when `n` is `2^k` for some `k`.
#[verifier::external_body]
fn u64_is_power_of_two(n: u64) -> (r: bool)
    ensures
        r == is_power_of_two(n),
{
    n.is_power_of_two()
}

/// Masking the bits below a power of two rounds down to a multiple of it.
pub proof fn lemma_mask_rounds_down(x: u64, p: u64)
    requires
        is_power_of_two(p),
    ensures
        x & !((p - 1) as u64) == x - x % p,
        1 <= p <= 0x8000_0000_0000_0000u64,
{
    let k = choose|k: nat| k < 64 && p == pow2(k);
    lemma_u64_pow2_no_overflow(k);
    lemma_u64_low_bits_mask_is_mod(x, k);
    lemma2_to64();
    lemma2_to64_rest();
    if k < 63 {
        lemma_pow2_strictly_increases(k, 63);
    }
    let m = (p - 1) as u64;
    assert(low_bits_mask(k) as u64 == m);
    assert(x & !m == x - (x & m)) by (bit_vector);
}

/// Rounds `n` down to a multiple of `alignment`, a power of two.
pub fn align_down(n: u64, alignment: u64) -> (r: u64)
    requires
        is_power_of_two(alignment),
    ensures
        r == n - n % alignment,
        r % alignment == 0,
        r <= n,
{
    proof {
        lemma_mask_rounds_down(n, alignment);
        vstd::arithmetic::div_mod::lemma_fundamental_div_mod(n as int, alignment as int);
        vstd::arithmetic::div_mod::lemma_mod_multiples_basic(n as int / alignment as int, alignment as int);
    }
    n & !alignment.saturating_sub(1)
}

/// The page size for a report of the system (`sysconf(_SC_PAGE_SIZE)`): `-1`
/// says that the query failed; any other value is read as a `u64`.
pub open spec fn page_size_result(reported: i64) -> Result<u64, ErrorKind> {
    if reported == -1 {
        Err(ErrorKind::UnknownPageSize)
    } else if is_power_of_two(reported as u64) {
        Ok(reported as u64)
    } else {
        Err(ErrorKind::InvalidPageSize(reported as u64))
    }
}

/// Size in bytes of the smallest possible virtual memory page, from the
/// value that the system reported for it (`-1` where it could not).
pub fn min_system_page_size(reported: i64) -> (r: Result<u64, Error>)
    ensures
        match r {
            Ok(size) => page_size_result(reported) == Ok::<u64, ErrorKind>(size),
            Err(e) => page_size_result(reported) == Err::<u64, ErrorKind>(e@),
        },
{
    if reported == -1 {
        return Err(Error::new(ErrorKind::UnknownPageSize));
    }
    let value = #[verifier::truncate] (reported as u64);
    if u64_is_power_of_two(value) {
        Ok(value)
    } else {
        Err(Error::new(ErrorKind::InvalidPageSize(value)))
    }
}

/// The descriptor-count limit for a report of the system
/// (`sysconf(_SC_IOV_MAX)`): where the system could not report one (`-1`, or
/// `0`), `1`; else the value read as a `usize`, unless that reading is zero.
pub open spec fn iov_max_result(reported: i64) -> usize {
    if reported == -1 || reported as usize == 0 {
        1
    } else {
        reported as usize
    }
}

/// Maximum number of descriptors that one transfer call accepts, from the
/// value that the system reported for it.
pub fn system_iov_max(reported: i64) -> (r: usize)
    ensures
        r == iov_max_result(reported),
        r >= 1,
{
    let value = #[verifier::truncate] (reported as usize);
    if reported == -1 || value == 0 {
        1
    } else {
        value
    }
}

} // verus!
