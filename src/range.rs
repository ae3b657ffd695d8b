//! Splitting an address range at page boundaries, and the descriptor lists
//! that describe it to the transfer system calls.
use vstd::prelude::*;

use crate::capabilities::{align_down, is_power_of_two, lemma_mask_rounds_down};
use crate::iovec::{remote_io_vectors, RemoteIoVectors};

verus! {

/// An address range which is split, at page boundaries, over multiple sections.
///
/// The address range spans as follows:
/// 1. A possibly empty part of a first page, then
/// 2. Zero or more full pages, then
/// 3. A possibly empty part of a last page.
#[derive(Debug, Clone, Copy, PartialEq, Eq, Default)]
pub struct PageAwareAddressRange {
    /// First address of the range.
    pub start_address: u64,
    /// Bytes from the start address up to the next page boundary.
    pub size_in_first_page: u64,
    /// Bytes of the full pages that follow the first part.
    pub size_of_inner_pages: u64,
    /// Bytes after the last full page.
    pub size_in_last_page: u64,
}

/// The address `a` on the ring of 64-bit addresses: past the top of the
/// address space, addresses wrap around to zero.
pub open spec fn address_at(a: int) -> u64 {
    (a % 0x1_0000_0000_0000_0000) as u64
}

/// The range `[start, start + size)` split at the boundaries of pages of
/// `page_size` bytes.
pub open spec fn page_aware_range(start: u64, size: u64, page_size: u64) -> PageAwareAddressRange {
    let distance = start % page_size;
    if size == 0 {
        PageAwareAddressRange {
            start_address: start,
            size_in_first_page: 0,
            size_of_inner_pages: 0,
            size_in_last_page: 0,
        }
    } else if size <= page_size && distance + size <= page_size {
        if distance == 0 && size == page_size {
            PageAwareAddressRange {
                start_address: start,
                size_in_first_page: 0,
                size_of_inner_pages: size,
                size_in_last_page: 0,
            }
        } else {
            PageAwareAddressRange {
                start_address: start,
                size_in_first_page: size,
                size_of_inner_pages: 0,
                size_in_last_page: 0,
            }
        }
    } else {
        let first: int = if distance == 0 {
            0
        } else {
            page_size - distance
        };
        let rest = size - first;
        PageAwareAddressRange {
            start_address: start,
            size_in_first_page: first as u64,
            size_of_inner_pages: (rest - rest % (page_size as int)) as u64,
            size_in_last_page: (rest % (page_size as int)) as u64,
        }
    }
}

impl PageAwareAddressRange {
    /// Number of bytes that the range spans.
    pub open spec fn covered(self) -> int {
        self.size_in_first_page + self.size_of_inner_pages + self.size_in_last_page
    }

    /// The inner part is made of whole pages, and the range is no longer
    /// than the address space.
    pub open spec fn well_formed(self, page_size: u64) -> bool {
        &&& is_power_of_two(page_size)
        &&& self.size_of_inner_pages % page_size == 0
        &&& self.covered() <= u64::MAX
    }

    /// Number of whole pages in the inner part.
    pub open spec fn inner_page_count(self, page_size: u64) -> nat {
        (self.size_of_inner_pages / page_size) as nat
    }

    /// Number of descriptors that describe the range.
    pub open spec fn spec_descriptor_count(self, page_size: u64) -> nat {
        (if self.size_in_first_page != 0 {
            1nat
        } else {
            0nat
        }) + (if self.size_in_last_page != 0 {
            1nat
        } else {
            0nat
        }) + self.inner_page_count(page_size)
    }

    /// The descriptor of the first part, if it is not empty.
    pub open spec fn first_page_descriptors(self) -> Seq<(u64, u64)> {
        if self.size_in_first_page != 0 {
            seq![(self.start_address, self.size_in_first_page)]
        } else {
            Seq::empty()
        }
    }

    /// One descriptor for each inner page, in address order.
    pub open spec fn inner_page_descriptors(self, page_size: u64) -> Seq<(u64, u64)> {
        Seq::new(
            self.inner_page_count(page_size),
            |i: int| (address_at(self.start_address + self.size_in_first_page + i * page_size), page_size),
        )
    }

    /// The descriptor of the last part, if it is not empty.
    pub open spec fn last_page_descriptors(self) -> Seq<(u64, u64)> {
        if self.size_in_last_page != 0 {
            seq![
                (
                    address_at(
                        self.start_address + self.size_in_first_page + self.size_of_inner_pages,
                    ),
                    self.size_in_last_page,
                ),
            ]
        } else {
            Seq::empty()
        }
    }

    /// The descriptors `(address, length)` of the range, in address order.
    pub open spec fn descriptors(self, page_size: u64) -> Seq<(u64, u64)> {
        self.first_page_descriptors() + self.inner_page_descriptors(page_size)
            + self.last_page_descriptors()
    }

    /// The range without its last part.
    pub open spec fn without_last_page(self) -> Self {
        PageAwareAddressRange {
            start_address: self.start_address,
            size_in_first_page: self.size_in_first_page,
            size_of_inner_pages: self.size_of_inner_pages,
            size_in_last_page: 0,
        }
    }

    /// The range without the last `n` of its inner pages.
    pub open spec fn without_inner_pages(self, n: nat, page_size: u64) -> Self {
        PageAwareAddressRange {
            start_address: self.start_address,
            size_in_first_page: self.size_in_first_page,
            size_of_inner_pages: (self.size_of_inner_pages - n * page_size) as u64,
            size_in_last_page: self.size_in_last_page,
        }
    }

    /// Convert a plain address range into an address range which is split,
    /// at page boundaries, over multiple sections.
    pub fn new(start_address: u64, size: u64, page_size: u64) -> (r: Self)
        requires
            is_power_of_two(page_size),
        ensures
            r == page_aware_range(start_address, size, page_size),
    {
        if size == 0 {
            return Self {
                start_address,
                size_in_first_page: 0,
                size_of_inner_pages: 0,
                size_in_last_page: 0,
            };
        }
        proof {
            lemma_mask_rounds_down(start_address, page_size);
        }
        let distance_to_preceeding_page_boundary = start_address - align_down(
            start_address,
            page_size,
        );

        let inside_one_page = size <= page_size && distance_to_preceeding_page_boundary + size
            <= page_size;

        if inside_one_page {
            return if distance_to_preceeding_page_boundary == 0 && size == page_size {
                Self {
                    start_address,
                    size_in_first_page: 0,
                    size_of_inner_pages: size,
                    size_in_last_page: 0,
                }
            } else {
                Self {
                    start_address,
                    size_in_first_page: size,
                    size_of_inner_pages: 0,
                    size_in_last_page: 0,
                }
            };
        }

        let size_in_first_page = if distance_to_preceeding_page_boundary == 0 {
            0
        } else {
            page_size - distance_to_preceeding_page_boundary
        };

        let rest = size - size_in_first_page;
        proof {
            lemma_mask_rounds_down(rest, page_size);
        }
        let size_of_inner_pages = align_down(rest, page_size);
        let size_in_last_page = rest - size_of_inner_pages;

        Self { start_address, size_in_first_page, size_of_inner_pages, size_in_last_page }
    }

    /// Number of descriptors that describe the range.
    pub fn descriptor_count(&self, page_size: u64) -> (r: u64)
        requires
            self.well_formed(page_size),
        ensures
            r == self.spec_descriptor_count(page_size),
    {
        proof {
            lemma_inner_pages(*self, page_size);
        }
        let inner_pages_count = self.size_of_inner_pages / page_size;
        let in_first_page: u64 = if self.size_in_first_page != 0 {
            1
        } else {
            0
        };
        let in_last_page: u64 = if self.size_in_last_page != 0 {
            1
        } else {
            0
        };
        in_first_page + in_last_page + inner_pages_count
    }

    /// Caps the number of descriptors at `max_count`: drops the last part
    /// first, then as many inner pages from the end as the limit asks.
    /// Returns the capped range and the number of bytes dropped from its end.
    pub fn limit_descriptor_count(self, page_size: u64, max_count: usize) -> (r: (Self, u64))
        requires
            self.well_formed(page_size),
            max_count >= 1,
        ensures
            r == limited_range(self, page_size, max_count),
            r.0.well_formed(page_size),
            r.0.spec_descriptor_count(page_size) <= max_count,
            r.0.covered() + r.1 == self.covered(),
    {
        let mut range = self;
        let mut size_of_not_covered_suffix: u64 = 0;
        let mut total_count = range.descriptor_count(page_size);
        proof {
            lemma_inner_pages(range, page_size);
        }
        if total_count > max_count as u64 && range.size_in_last_page != 0 {
            // Skip the last page.
            size_of_not_covered_suffix = range.size_in_last_page;
            range.size_in_last_page = 0;
            total_count = total_count - 1;
        }
        proof {
            lemma_inner_pages(range, page_size);
        }
        if total_count > max_count as u64 && range.size_of_inner_pages != 0 {
            // Skip as many inner pages as necessary.
            let excess_pages = total_count - max_count as u64;
            proof {
                lemma_without_inner_pages(range, excess_pages as nat, page_size);
            }
            let excess_size = page_size * excess_pages;
            range.size_of_inner_pages = range.size_of_inner_pages - excess_size;
            size_of_not_covered_suffix = size_of_not_covered_suffix + excess_size;
        }
        (range, size_of_not_covered_suffix)
    }

    /// Appends the descriptors of the range to the empty list `list`.
    fn push_descriptors(&self, page_size: u64, list: &mut RemoteIoVectors)
        requires
            self.well_formed(page_size),
            remote_io_vectors(*old(list)) == Seq::<(u64, u64)>::empty(),
            self.spec_descriptor_count(page_size) * 32 <= isize::MAX,
        ensures
            remote_io_vectors(*final(list)) == self.descriptors(page_size),
    {
        proof {
            lemma_inner_pages(*self, page_size);
            vstd::arithmetic::div_mod::lemma_small_mod(
                self.start_address as nat,
                0x1_0000_0000_0000_0000nat,
            );
        }
        if self.size_in_first_page != 0 {
            list.push((self.start_address, self.size_in_first_page));
        }
        let ghost first = self.first_page_descriptors();
        let ghost inner = self.inner_page_descriptors(page_size);
        let ghost count = self.inner_page_count(page_size);
        assert(remote_io_vectors(*list) == first + inner.take(0));

        proof {
            lemma_address_step(self.start_address as int, self.size_in_first_page);
        }
        let mut page_address = self.start_address.wrapping_add(self.size_in_first_page);
        proof {
            lemma_address_step(
                self.start_address + self.size_in_first_page,
                self.size_of_inner_pages,
            );
        }
        let start_of_last_page = page_address.wrapping_add(self.size_of_inner_pages);

        let mut remaining_size = self.size_of_inner_pages;
        let ghost mut i: nat = 0;
        while remaining_size != 0
            invariant
                self.well_formed(page_size),
                1 <= page_size,
                i <= count,
                count == self.inner_page_count(page_size),
                count * page_size == self.size_of_inner_pages,
                remaining_size == (count - i) * page_size,
                page_address == address_at(self.start_address + self.size_in_first_page + i * page_size),
                first == self.first_page_descriptors(),
                inner == self.inner_page_descriptors(page_size),
                remote_io_vectors(*list) == first + inner.take(i as int),
                self.spec_descriptor_count(page_size) * 32 <= isize::MAX,
            decreases remaining_size,
        {
            proof {
                vstd::arithmetic::mul::lemma_mul_basics(page_size as int);
                if i == count {
                    assert(remaining_size == 0);
                }
                vstd::arithmetic::mul::lemma_mul_is_distributive_sub_other_way(
                    page_size as int,
                    count as int,
                    i + 1int,
                );
                vstd::arithmetic::mul::lemma_mul_is_distributive_sub_other_way(
                    page_size as int,
                    count as int,
                    i as int,
                );
                vstd::arithmetic::mul::lemma_mul_inequality(1, (count - i) as int, page_size as int);
                vstd::arithmetic::mul::lemma_mul_is_distributive_add_other_way(
                    page_size as int,
                    i as int,
                    1,
                );
                lemma_address_step(
                    self.start_address + self.size_in_first_page + i * page_size,
                    page_size,
                );
            }
            list.push((page_address, page_size));
            remaining_size = remaining_size - page_size;
            page_address = page_address.wrapping_add(page_size);
            proof {
                assert(inner.take(i + 1int) == inner.take(i as int).push(inner[i as int]));
                i = i + 1;
            }
        }
        proof {
            if i < count {
                vstd::arithmetic::mul::lemma_mul_inequality(1, (count - i) as int, page_size as int);
            }
            assert(inner.take(i as int) == inner);
        }

        if self.size_in_last_page != 0 {
            list.push((start_of_last_page, self.size_in_last_page));
        }
    }

    /// Transform this address range into a list of descriptors, one for
    /// each page or part of a page, of at most `max_iov_count` entries.
    ///
    /// Due to the descriptor-count limit, and to allocation failures, some
    /// suffix of this address range might not be described by the list. The
    /// size of that suffix is also returned. A list that covers only a prefix
    /// of this address range is not considered a failure.
    pub fn into_iov_buffers(self, page_size: u64, max_iov_count: usize) -> (r: (
        RemoteIoVectors,
        u64,
    ))
        requires
            self.well_formed(page_size),
            max_iov_count >= 1,
        ensures
            exists|k: nat|
                #[trigger] retry_outcome(self, page_size, max_iov_count, k) == (
                    remote_io_vectors(r.0),
                    r.1,
                ),
            limited_range(self, page_size, max_iov_count).0.spec_descriptor_count(page_size) <= 3
                ==> retry_outcome(self, page_size, max_iov_count, 0) == (
                remote_io_vectors(r.0),
                r.1,
            ),
            remote_io_vectors(r.0).len() <= max_iov_count,
            remote_io_vectors(r.0).is_prefix_of(self.descriptors(page_size)),
            total_length(remote_io_vectors(r.0)) + r.1 == self.covered(),
    {
        let limited = self.limit_descriptor_count(page_size, max_iov_count);
        let mut range = limited.0;
        let mut size_of_not_covered_suffix = limited.1;
        let mut count = range.descriptor_count(page_size);
        let mut result = RemoteIoVectors::new();
        let ghost mut k: nat = 0;
        loop
            invariant
                range.well_formed(page_size),
                (range, size_of_not_covered_suffix) == after_retries(
                    limited.0,
                    limited.1,
                    page_size,
                    k,
                ),
                limited == limited_range(self, page_size, max_iov_count),
                k == 0 ==> range == limited.0,
                limited.0.spec_descriptor_count(page_size) <= 3 ==> k == 0,
                count == range.spec_descriptor_count(page_size),
                count <= max_iov_count,
                remote_io_vectors(result) == Seq::<(u64, u64)>::empty(),
                range.covered() + size_of_not_covered_suffix == self.covered(),
                self.well_formed(page_size),
            ensures
                range.well_formed(page_size),
                (range, size_of_not_covered_suffix) == after_retries(
                    limited.0,
                    limited.1,
                    page_size,
                    k,
                ),
                limited.0.spec_descriptor_count(page_size) <= 3 ==> k == 0,
                count == range.spec_descriptor_count(page_size),
                count <= max_iov_count,
                count <= 3 || count * 32 <= isize::MAX,
                remote_io_vectors(result) == Seq::<(u64, u64)>::empty(),
            decreases count,
        {
            if count <= 3 {
                // Three descriptors are held inline: no allocation can fail.
                break;
            }
            // A list longer than this could never be laid out in memory, so
            // it counts as an allocation that failed.
            if count <= (isize::MAX as u64) / 32 && result.try_reserve_exact(count as usize) {
                break;
            }
            let step = range.shrink_for_retry(page_size);
            range = step.0;
            proof {
                lemma_inner_pages(range, page_size);
                k = k + 1;
            }
            size_of_not_covered_suffix = size_of_not_covered_suffix + step.1;
            count = range.descriptor_count(page_size);
        }
        range.push_descriptors(page_size, &mut result);
        assert(retry_outcome(self, page_size, max_iov_count, k) == (
            remote_io_vectors(result),
            size_of_not_covered_suffix,
        ));
        proof {
            lemma_limited_prefix(self, page_size, max_iov_count);
            lemma_after_retries(limited.0, limited.1, page_size, k);
            lemma_descriptors_cover(range, page_size);
            let whole = self.descriptors(page_size);
            let capped = limited.0.descriptors(page_size);
            let list = range.descriptors(page_size);
            assert(list =~= whole.subrange(0, list.len() as int));
        }
        (result, size_of_not_covered_suffix)
    }

    /// One retry step after the descriptor list could not be allocated:
    /// drops the last part if there is one, else half of the inner pages.
    /// Returns the smaller range and the number of bytes dropped.
    pub fn shrink_for_retry(self, page_size: u64) -> (r: (Self, u64))
        requires
            self.well_formed(page_size),
        ensures
            r == shrunk_range(self, page_size),
            r.0.well_formed(page_size),
            r.0.covered() + r.1 == self.covered(),
            self.spec_descriptor_count(page_size) > 2 ==> r.0.spec_descriptor_count(page_size)
                < self.spec_descriptor_count(page_size),
    {
        let mut range = self;
        proof {
            lemma_inner_pages(range, page_size);
        }
        if range.size_in_last_page != 0 {
            // Retry without the descriptor of the last page.
            let size = range.size_in_last_page;
            range.size_in_last_page = 0;
            return (range, size);
        }
        let inner_pages_count = range.size_of_inner_pages / page_size;
        if inner_pages_count >= 2 {
            // Retry without half the descriptors of the inner pages.
            let half_inner_pages = inner_pages_count / 2;
            proof {
                lemma_without_inner_pages(range, half_inner_pages as nat, page_size);
            }
            let size_of_half_inner_pages = page_size * half_inner_pages;
            range.size_of_inner_pages = range.size_of_inner_pages - size_of_half_inner_pages;
            return (range, size_of_half_inner_pages);
        }
        (range, 0)
    }
}

/// Adding `b` with wraparound to the address of `a` gives the address of `a + b`.
proof fn lemma_address_step(a: int, b: u64)
    requires
        a >= 0,
    ensures
        address_at(a).wrapping_add(b) == address_at(a + b),
{
    let m: int = 0x1_0000_0000_0000_0000;
    vstd::arithmetic::div_mod::lemma_add_mod_noop(a, b as int, m);
    vstd::arithmetic::div_mod::lemma_small_mod(b as nat, m as nat);
    vstd::arithmetic::div_mod::lemma_mod_bound(a, m);
    let s = a % m + b;
    if s >= m {
        vstd::arithmetic::div_mod::lemma_mod_sub_multiples_vanish(s, m);
        vstd::arithmetic::div_mod::lemma_small_mod((s - m) as nat, m as nat);
    } else {
        vstd::arithmetic::div_mod::lemma_small_mod(s as nat, m as nat);
    }
}

/// The inner part holds its page count times the page size.
proof fn lemma_inner_pages(r: PageAwareAddressRange, page_size: u64)
    requires
        r.well_formed(page_size),
    ensures
        r.inner_page_count(page_size) * page_size == r.size_of_inner_pages,
        r.inner_page_count(page_size) <= r.size_of_inner_pages,
        r.spec_descriptor_count(page_size) <= r.covered(),
        1 <= page_size <= 0x8000_0000_0000_0000u64,
{
    lemma_mask_rounds_down(0, page_size);
    vstd::arithmetic::div_mod::lemma_fundamental_div_mod(
        r.size_of_inner_pages as int,
        page_size as int,
    );
    vstd::arithmetic::mul::lemma_mul_is_commutative(
        r.inner_page_count(page_size) as int,
        page_size as int,
    );
    vstd::arithmetic::mul::lemma_mul_inequality(1, page_size as int, r.inner_page_count(page_size) as int);
}

/// Dropping `n` inner pages, no more than there are, keeps a range well formed.
proof fn lemma_without_inner_pages(r: PageAwareAddressRange, n: nat, page_size: u64)
    requires
        r.well_formed(page_size),
        n <= r.inner_page_count(page_size),
    ensures
        n * page_size <= r.size_of_inner_pages,
        r.without_inner_pages(n, page_size).well_formed(page_size),
        r.without_inner_pages(n, page_size).inner_page_count(page_size) == r.inner_page_count(
            page_size,
        ) - n,
        r.without_inner_pages(n, page_size).covered() + n * page_size == r.covered(),
{
    lemma_inner_pages(r, page_size);
    let c = r.inner_page_count(page_size) as int;
    let p = page_size as int;
    vstd::arithmetic::mul::lemma_mul_inequality(n as int, c, p);
    vstd::arithmetic::mul::lemma_mul_is_distributive_sub_other_way(p, c, n as int);
    let rest = (c - n) * p;
    lemma_mask_rounds_down(0, page_size);
    vstd::arithmetic::div_mod::lemma_mod_multiples_basic(c - n, p);
    vstd::arithmetic::div_mod::lemma_div_multiples_vanish(c - n, p);
    vstd::arithmetic::mul::lemma_mul_is_commutative(c - n, p);
}

/// Splitting a range accounts for each of its bytes exactly once: the first
/// and last parts are shorter than a page, and the inner part is made of
/// whole pages.
pub proof fn lemma_split_partitions(start: u64, size: u64, page_size: u64)
    requires
        is_power_of_two(page_size),
    ensures
        page_aware_range(start, size, page_size).covered() == size,
        page_aware_range(start, size, page_size).size_of_inner_pages % page_size == 0,
        page_aware_range(start, size, page_size).size_in_first_page < page_size,
        page_aware_range(start, size, page_size).size_in_last_page < page_size,
        page_aware_range(start, size, page_size).start_address == start,
{
    lemma_mask_rounds_down(start, page_size);
    vstd::arithmetic::div_mod::lemma_mod_self_0(page_size as int);
    vstd::arithmetic::div_mod::lemma_small_mod(0, page_size as nat);
    let distance = start % page_size;
    if size > 0 && !(size <= page_size && distance + size <= page_size) {
        let first: int = if distance == 0 {
            0
        } else {
            page_size - distance
        };
        let rest = size - first;
        vstd::arithmetic::div_mod::lemma_fundamental_div_mod(rest, page_size as int);
        vstd::arithmetic::div_mod::lemma_mod_multiples_basic(rest / page_size as int, page_size as int);
        vstd::arithmetic::mul::lemma_mul_is_commutative(rest / page_size as int, page_size as int);
        vstd::arithmetic::div_mod::lemma_mod_pos_bound(rest, page_size as int);
        assert(0 <= rest <= size);
        assert(0 <= rest - rest % (page_size as int) <= u64::MAX);
        assert((rest - rest % (page_size as int)) % (page_size as int) == 0);
    }
}

/// The range, and the number of bytes dropped from its end, once it is
/// described by at most `max_count` descriptors: the last part goes first,
/// then as many inner pages as the limit asks.
pub open spec fn limited_range(r: PageAwareAddressRange, page_size: u64, max_count: usize) -> (
    PageAwareAddressRange,
    u64,
) {
    let dropped_last = r.spec_descriptor_count(page_size) > max_count && r.size_in_last_page != 0;
    let r1 = if dropped_last {
        r.without_last_page()
    } else {
        r
    };
    let u1: int = if dropped_last {
        r.size_in_last_page as int
    } else {
        0
    };
    if r1.spec_descriptor_count(page_size) > max_count && r1.size_of_inner_pages != 0 {
        let excess = (r1.spec_descriptor_count(page_size) - max_count) as nat;
        (r1.without_inner_pages(excess, page_size), (u1 + excess * page_size) as u64)
    } else {
        (r1, u1 as u64)
    }
}

/// One retry step after an allocation failed: the range without its last
/// part if it has one, else without half of its inner pages; and the number
/// of bytes dropped.
pub open spec fn shrunk_range(r: PageAwareAddressRange, page_size: u64) -> (
    PageAwareAddressRange,
    u64,
) {
    if r.size_in_last_page != 0 {
        (r.without_last_page(), r.size_in_last_page)
    } else if r.inner_page_count(page_size) >= 2 {
        let half = r.inner_page_count(page_size) / 2;
        (r.without_inner_pages(half, page_size), (half * page_size) as u64)
    } else {
        (r, 0)
    }
}

/// The range and the bytes left uncovered after `k` retry steps from `r`,
/// of which `uncovered` bytes were left uncovered already.
pub open spec fn after_retries(
    r: PageAwareAddressRange,
    uncovered: u64,
    page_size: u64,
    k: nat,
) -> (PageAwareAddressRange, u64)
    decreases k,
{
    if k == 0 {
        (r, uncovered)
    } else {
        let previous = after_retries(r, uncovered, page_size, (k - 1) as nat);
        let step = shrunk_range(previous.0, page_size);
        (step.0, (previous.1 + step.1) as u64)
    }
}

/// The descriptors and the size of the uncovered suffix that a range yields
/// under a descriptor-count limit, after `k` retry steps.
pub open spec fn retry_outcome(
    r: PageAwareAddressRange,
    page_size: u64,
    max_count: usize,
    k: nat,
) -> (Seq<(u64, u64)>, u64) {
    let limited = limited_range(r, page_size, max_count);
    let after = after_retries(limited.0, limited.1, page_size, k);
    (after.0.descriptors(page_size), after.1)
}

/// Sum of the lengths of the descriptors `s`.
pub open spec fn total_length(s: Seq<(u64, u64)>) -> int
    decreases s.len(),
{
    if s.len() == 0 {
        0
    } else {
        total_length(s.drop_last()) + s.last().1
    }
}

proof fn lemma_total_length_concat(a: Seq<(u64, u64)>, b: Seq<(u64, u64)>)
    ensures
        total_length(a + b) == total_length(a) + total_length(b),
    decreases b.len(),
{
    if b.len() == 0 {
        assert(a + b =~= a);
    } else {
        lemma_total_length_concat(a, b.drop_last());
        assert((a + b).drop_last() =~= a + b.drop_last());
    }
}

/// The inner descriptors of a range without some of its inner pages are the
/// first ones of the range's own.
proof fn lemma_inner_descriptors_take(r: PageAwareAddressRange, n: nat, page_size: u64)
    requires
        r.well_formed(page_size),
        n <= r.inner_page_count(page_size),
    ensures
        r.without_inner_pages(n, page_size).inner_page_descriptors(page_size)
            =~= r.inner_page_descriptors(page_size).take(r.inner_page_count(page_size) - n),
{
    lemma_without_inner_pages(r, n, page_size);
}

proof fn lemma_inner_total(r: PageAwareAddressRange, page_size: u64)
    requires
        r.well_formed(page_size),
    ensures
        total_length(r.inner_page_descriptors(page_size)) == r.size_of_inner_pages,
    decreases r.inner_page_count(page_size),
{
    lemma_inner_pages(r, page_size);
    vstd::arithmetic::mul::lemma_mul_basics(page_size as int);
    let inner = r.inner_page_descriptors(page_size);
    if r.inner_page_count(page_size) > 0 {
        let shorter = r.without_inner_pages(1, page_size);
        lemma_without_inner_pages(r, 1, page_size);
        lemma_inner_descriptors_take(r, 1, page_size);
        lemma_inner_total(shorter, page_size);
        assert(inner.drop_last() =~= shorter.inner_page_descriptors(page_size));
        assert(inner.last().1 == page_size);
    } else {
        assert(inner.len() == 0);
    }
}

/// The lengths of the descriptors of a range add up to the bytes it spans.
pub proof fn lemma_descriptors_cover(r: PageAwareAddressRange, page_size: u64)
    requires
        r.well_formed(page_size),
    ensures
        total_length(r.descriptors(page_size)) == r.covered(),
{
    lemma_inner_total(r, page_size);
    lemma_total_length_concat(r.first_page_descriptors(), r.inner_page_descriptors(page_size));
    lemma_total_length_concat(
        r.first_page_descriptors() + r.inner_page_descriptors(page_size),
        r.last_page_descriptors(),
    );
    let f = r.first_page_descriptors();
    let l = r.last_page_descriptors();
    assert(total_length(Seq::<(u64, u64)>::empty()) == 0);
    if f.len() > 0 {
        assert(f.drop_last() =~= Seq::<(u64, u64)>::empty());
    }
    assert(total_length(f) == r.size_in_first_page);
    if l.len() > 0 {
        assert(l.drop_last() =~= Seq::<(u64, u64)>::empty());
    }
    assert(total_length(l) == r.size_in_last_page);
}

/// A range with fewer inner pages, and no last part, is described by a
/// prefix of the descriptors of the range.
proof fn lemma_shorter_range_prefix(r: PageAwareAddressRange, n: nat, page_size: u64)
    requires
        r.well_formed(page_size),
        n <= r.inner_page_count(page_size),
    ensures
        r.without_last_page().without_inner_pages(n, page_size).descriptors(
            page_size,
        ).is_prefix_of(r.descriptors(page_size)),
{
    let shorter = r.without_last_page().without_inner_pages(n, page_size);
    lemma_inner_descriptors_take(r, n, page_size);
    assert(shorter.inner_page_descriptors(page_size) =~= r.without_inner_pages(
        n,
        page_size,
    ).inner_page_descriptors(page_size));
    let whole = r.descriptors(page_size);
    let part = shorter.descriptors(page_size);
    assert(part =~= whole.subrange(0, part.len() as int));
}

/// Capping a range and retrying keeps a well-formed range, described by a
/// prefix of the descriptors of the one it started from, and accounts for
/// every byte as either still spanned or uncovered.
proof fn lemma_after_retries(r: PageAwareAddressRange, uncovered: u64, page_size: u64, k: nat)
    requires
        r.well_formed(page_size),
        r.covered() + uncovered <= u64::MAX,
    ensures
        after_retries(r, uncovered, page_size, k).0.well_formed(page_size),
        after_retries(r, uncovered, page_size, k).0.covered() + after_retries(
            r,
            uncovered,
            page_size,
            k,
        ).1 == r.covered() + uncovered,
        after_retries(r, uncovered, page_size, k).0.descriptors(page_size).is_prefix_of(
            r.descriptors(page_size),
        ),
    decreases k,
{
    if k > 0 {
        lemma_after_retries(r, uncovered, page_size, (k - 1) as nat);
        let previous = after_retries(r, uncovered, page_size, (k - 1) as nat).0;
        lemma_inner_pages(previous, page_size);
        if previous.size_in_last_page != 0 {
            lemma_shorter_range_prefix(previous, 0, page_size);
            assert(previous.without_last_page().without_inner_pages(0, page_size)
                == previous.without_last_page());
        } else if previous.inner_page_count(page_size) >= 2 {
            let half = previous.inner_page_count(page_size) / 2;
            lemma_without_inner_pages(previous, half, page_size);
            lemma_shorter_range_prefix(previous, half, page_size);
            assert(previous.without_last_page() == previous);
        }
        let next = after_retries(r, uncovered, page_size, k).0;
        let before = r.descriptors(page_size);
        assert(previous.descriptors(page_size).is_prefix_of(before));
        assert(next.descriptors(page_size).is_prefix_of(previous.descriptors(page_size)));
        assert(next.descriptors(page_size) =~= before.subrange(
            0,
            next.descriptors(page_size).len() as int,
        ));
    } else {
        assert(r.descriptors(page_size) =~= r.descriptors(page_size).subrange(
            0,
            r.descriptors(page_size).len() as int,
        ));
    }
}

/// The capped range is described by a prefix of the descriptors of the range.
proof fn lemma_limited_prefix(r: PageAwareAddressRange, page_size: u64, max_count: usize)
    requires
        r.well_formed(page_size),
        max_count >= 1,
    ensures
        limited_range(r, page_size, max_count).0.descriptors(page_size).is_prefix_of(
            r.descriptors(page_size),
        ),
{
    lemma_inner_pages(r, page_size);
    let limited = limited_range(r, page_size, max_count).0;
    let dropped_last = r.spec_descriptor_count(page_size) > max_count && r.size_in_last_page != 0;
    let r1 = if dropped_last {
        r.without_last_page()
    } else {
        r
    };
    if r1.spec_descriptor_count(page_size) > max_count && r1.size_of_inner_pages != 0 {
        let excess = (r1.spec_descriptor_count(page_size) - max_count) as nat;
        assert(r1.size_in_last_page == 0);
        assert(r1 == r.without_last_page());
        lemma_shorter_range_prefix(r, excess, page_size);
    } else if dropped_last {
        lemma_shorter_range_prefix(r, 0, page_size);
        assert(r.without_last_page().without_inner_pages(0, page_size) == r.without_last_page());
    } else {
        assert(r.descriptors(page_size) =~= r.descriptors(page_size).subrange(
            0,
            r.descriptors(page_size).len() as int,
        ));
    }
}

/// Where the descriptor-count limit truncates nothing, the list of a split
/// range, before any retry, is all of its descriptors: their lengths add up
/// to the size asked for and no bytes are left uncovered.
pub proof fn lemma_untruncated_list_covers_range(
    start: u64,
    size: u64,
    page_size: u64,
    max_count: usize,
)
    requires
        is_power_of_two(page_size),
        page_aware_range(start, size, page_size).spec_descriptor_count(page_size) <= max_count,
    ensures
        retry_outcome(page_aware_range(start, size, page_size), page_size, max_count, 0) == (
            page_aware_range(start, size, page_size).descriptors(page_size),
            0u64,
        ),
        total_length(page_aware_range(start, size, page_size).descriptors(page_size)) == size,
{
    lemma_split_partitions(start, size, page_size);
    lemma_descriptors_cover(page_aware_range(start, size, page_size), page_size);
}

} // verus!
