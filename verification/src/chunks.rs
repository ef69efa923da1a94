//! The ranges that a resource is fetched in.
use vstd::prelude::*;

verus! {

/// The smaller of two numbers.
pub open spec fn least(a: int, b: int) -> int {
    if a <= b {
        a
    } else {
        b
    }
}

/// How many ranges of at most `chunk` bytes it takes to cover `total` bytes.
pub open spec fn range_count(total: u64, chunk: u64) -> int {
    (total + chunk - 1) / (chunk as int)
}

/// The first and the last byte of the range with that number.
pub open spec fn range_at(total: u64, chunk: u64, index: int) -> (u64, u64) {
    ((index * chunk) as u64, (least(index * chunk + chunk, total as int) - 1) as u64)
}

/// The ranges of at most `chunk` bytes that cover `total` bytes, in order.
pub open spec fn ranges_of(total: u64, chunk: u64) -> Seq<(u64, u64)> {
    Seq::new(range_count(total, chunk) as nat, |i: int| range_at(total, chunk, i))
}

/// How many ranges are fetched at a time: no more than there are or than are allowed,
/// and at least one.
pub open spec fn permits_for(allowed: usize, count: nat) -> int {
    least(
        if allowed > 1 {
            allowed as int
        } else {
            1
        },
        if count > 1 {
            count as int
        } else {
            1
        },
    )
}

/// How many bytes the ranges hold together.
pub open spec fn bytes_in(ranges: Seq<(u64, u64)>) -> int
    decreases ranges.len(),
{
    if ranges.len() == 0 {
        0
    } else {
        bytes_in(ranges.drop_last()) + (ranges.last().1 - ranges.last().0 + 1)
    }
}

/// The number of ranges, as the first multiple of the chunk that reaches the total.
proof fn lemma_count(total: u64, chunk: u64, count: int)
    requires
        chunk > 0,
        count >= 0,
        (count - 1) * chunk < total <= count * chunk,
    ensures
        range_count(total, chunk) == count,
{
    let x = total + chunk - 1;
    assert((count - 1) * chunk == count * chunk - chunk) by (nonlinear_arith);
    vstd::arithmetic::div_mod::lemma_fundamental_div_mod_converse(
        x,
        chunk as int,
        count,
        x - count * chunk,
    );
}

/// Splits `total` bytes into ranges of `chunk` bytes; the last may be shorter.
pub fn split_ranges(total: u64, chunk: u64) -> (r: Vec<(u64, u64)>)
    requires
        chunk > 0,
    ensures
        r@ == ranges_of(total, chunk),
{
    let mut ranges: Vec<(u64, u64)> = Vec::new();
    if total == 0 {
        proof {
            lemma_count(total, chunk, 0);
        }
        assert(ranges@ =~= ranges_of(total, chunk));
        return ranges;
    }
    let mut start: u64 = 0;
    assert(0 * chunk == 0);
    while total - start > chunk
        invariant
            chunk > 0,
            start < total,
            start == ranges@.len() * chunk,
            forall|i: int| 0 <= i < ranges@.len() ==> ranges@[i] == range_at(total, chunk, i),
        decreases total - start,
    {
        let ghost n: int = ranges@.len() as int;
        ranges.push((start, start + (chunk - 1)));
        start = start + chunk;
        assert((n + 1) * chunk == n * chunk + chunk) by (nonlinear_arith);
    }
    let ghost n: int = ranges@.len() as int;
    ranges.push((start, total - 1));
    proof {
        assert((n + 1) * chunk == n * chunk + chunk) by (nonlinear_arith);
        lemma_count(total, chunk, n + 1);
        assert(ranges@ =~= ranges_of(total, chunk));
    }
    ranges
}

/// How many ranges it takes to cover `total` bytes.
pub fn count_ranges(total: u64, chunk: u64) -> (r: u64)
    requires
        chunk > 0,
    ensures
        r == ranges_of(total, chunk).len(),
{
    if total == 0 {
        proof {
            lemma_count(total, chunk, 0);
        }
        return 0;
    }
    let full: u64 = (total - 1) / chunk;
    proof {
        vstd::arithmetic::div_mod::lemma_fundamental_div_mod(total - 1, chunk as int);
        vstd::arithmetic::div_mod::lemma_mod_bound(total - 1, chunk as int);
        assert(full * chunk == chunk * full) by (nonlinear_arith);
        assert((full + 1) * chunk == full * chunk + chunk) by (nonlinear_arith);
        assert(full <= total - 1) by (nonlinear_arith)
            requires
                full * chunk <= total - 1,
                chunk > 0,
                full >= 0,
        ;
        lemma_count(total, chunk, full + 1);
    }
    full + 1
}

/// How many ranges are fetched at a time.
pub fn permits(allowed: usize, count: usize) -> (r: usize)
    ensures
        r == permits_for(allowed, count as nat),
{
    let most: usize = if allowed > 1 {
        allowed
    } else {
        1
    };
    let there: usize = if count > 1 {
        count
    } else {
        1
    };
    if most <= there {
        most
    } else {
        there
    }
}

/// The bounds of a range by its number.
pub proof fn lemma_range_at(total: u64, chunk: u64, index: int)
    requires
        chunk > 0,
        0 <= index < range_count(total, chunk),
    ensures
        index * chunk < total,
        range_at(total, chunk, index).0 == index * chunk,
        range_at(total, chunk, index).1 == least(index * chunk + chunk, total as int) - 1,
        index == range_count(total, chunk) - 1 <==> index * chunk + chunk >= total,
{
    let count = range_count(total, chunk);
    let x = total + chunk - 1;
    vstd::arithmetic::div_mod::lemma_fundamental_div_mod(x, chunk as int);
    vstd::arithmetic::div_mod::lemma_mod_bound(x, chunk as int);
    assert(chunk * count <= x < chunk * count + chunk);
    assert(index * chunk + chunk == (index + 1) * chunk) by (nonlinear_arith);
    assert((index + 1) * chunk <= count * chunk) by (nonlinear_arith)
        requires
            index + 1 <= count,
            chunk > 0,
    ;
    assert(chunk * count == count * chunk) by (nonlinear_arith);
    assert(index * chunk >= 0) by (nonlinear_arith)
        requires
            index >= 0,
            chunk > 0,
    ;
    if index + 1 < count {
        assert((index + 2) * chunk <= count * chunk) by (nonlinear_arith)
            requires
                index + 2 <= count,
                chunk > 0,
        ;
        assert((index + 2) * chunk == index * chunk + chunk + chunk) by (nonlinear_arith);
    } else {
        assert(index + 1 == count);
    }
}

/// The ranges lie one behind the other from the first byte to the last: each is in
/// itself in order and no longer than a chunk, and begins just behind the one before,
/// which is just as long as a chunk.
pub proof fn law_ranges_are_contiguous(total: u64, chunk: u64)
    requires
        chunk > 0,
    ensures
        total == 0 <==> ranges_of(total, chunk).len() == 0,
        total > 0 ==> ranges_of(total, chunk)[0].0 == 0,
        total > 0 ==> ranges_of(total, chunk).last().1 == total - 1,
        forall|i: int|
            #![trigger ranges_of(total, chunk)[i]]
            0 <= i < ranges_of(total, chunk).len() ==> {
                let (start, end) = ranges_of(total, chunk)[i];
                start <= end < total && end - start < chunk
            },
        forall|i: int|
            #![trigger ranges_of(total, chunk)[i]]
            0 <= i < ranges_of(total, chunk).len() - 1 ==> ranges_of(total, chunk)[i + 1].0
                == ranges_of(total, chunk)[i].1 + 1 && ranges_of(total, chunk)[i].1 - ranges_of(
                total,
                chunk,
            )[i].0 + 1 == chunk,
{
    let count = range_count(total, chunk);
    let x = total + chunk - 1;
    vstd::arithmetic::div_mod::lemma_fundamental_div_mod(x, chunk as int);
    vstd::arithmetic::div_mod::lemma_mod_bound(x, chunk as int);
    vstd::arithmetic::div_mod::lemma_div_pos_is_pos(x, chunk as int);
    assert(ranges_of(total, chunk).len() == count);
    if total == 0 {
        assert(count == 0) by (nonlinear_arith)
            requires
                x == chunk * count + x % (chunk as int),
                0 <= x % (chunk as int),
                x < chunk,
                count >= 0,
                chunk > 0,
        ;
    } else {
        assert(count > 0) by (nonlinear_arith)
            requires
                x == chunk * count + x % (chunk as int),
                x % (chunk as int) < chunk,
                x >= chunk,
                chunk > 0,
        ;
        lemma_range_at(total, chunk, 0);
        lemma_range_at(total, chunk, count - 1);
    }
    assert forall|i: int|
        #![trigger ranges_of(total, chunk)[i]]
        0 <= i < ranges_of(total, chunk).len() implies {
        let (start, end) = ranges_of(total, chunk)[i];
        start <= end < total && end - start < chunk
    } by {
        lemma_range_at(total, chunk, i);
    }
    assert forall|i: int|
        #![trigger ranges_of(total, chunk)[i]]
        0 <= i < ranges_of(total, chunk).len() - 1 implies ranges_of(total, chunk)[i + 1].0
        == ranges_of(total, chunk)[i].1 + 1 && ranges_of(total, chunk)[i].1 - ranges_of(
        total,
        chunk,
    )[i].0 + 1 == chunk by {
        lemma_range_at(total, chunk, i);
        lemma_range_at(total, chunk, i + 1);
        assert((i + 1) * chunk == i * chunk + chunk) by (nonlinear_arith);
    }
}

/// Every byte of the resource lies in exactly one of the ranges.
pub proof fn law_each_byte_in_one_range(total: u64, chunk: u64, byte: u64)
    requires
        chunk > 0,
        byte < total,
    ensures
        exists|i: int|
            0 <= i < ranges_of(total, chunk).len() && #[trigger] ranges_of(total, chunk)[i].0
                <= byte <= ranges_of(total, chunk)[i].1,
        forall|i: int, j: int|
            0 <= i < ranges_of(total, chunk).len() && 0 <= j < ranges_of(total, chunk).len()
                && #[trigger] ranges_of(total, chunk)[i].0 <= byte <= ranges_of(total, chunk)[i].1
                && #[trigger] ranges_of(total, chunk)[j].0 <= byte <= ranges_of(
                total,
                chunk,
            )[j].1 ==> i == j,
{
    let count = range_count(total, chunk);
    let k = byte as int / chunk as int;
    vstd::arithmetic::div_mod::lemma_fundamental_div_mod(byte as int, chunk as int);
    vstd::arithmetic::div_mod::lemma_mod_bound(byte as int, chunk as int);
    vstd::arithmetic::div_mod::lemma_div_pos_is_pos(byte as int, chunk as int);
    assert(k * chunk == chunk * k) by (nonlinear_arith);
    law_ranges_are_contiguous(total, chunk);
    lemma_range_at(total, chunk, count - 1);
    assert(k < count) by (nonlinear_arith)
        requires
            k * chunk <= byte < total,
            (count - 1) * chunk + chunk >= total,
            chunk > 0,
    ;
    lemma_range_at(total, chunk, k);
    assert(ranges_of(total, chunk)[k].0 <= byte <= ranges_of(total, chunk)[k].1);
    assert forall|i: int|
        0 <= i < ranges_of(total, chunk).len() && #[trigger] ranges_of(total, chunk)[i].0 <= byte
            <= ranges_of(total, chunk)[i].1 implies i == k by {
        lemma_range_at(total, chunk, i);
        assert(i == k) by (nonlinear_arith)
            requires
                i * chunk <= byte < i * chunk + chunk,
                k * chunk <= byte < k * chunk + chunk,
                chunk > 0,
        ;
    }
}

/// The bytes of the first ranges end where the next range begins.
proof fn lemma_bytes_before(total: u64, chunk: u64, n: int)
    requires
        chunk > 0,
        0 <= n <= range_count(total, chunk),
    ensures
        bytes_in(ranges_of(total, chunk).take(n)) == least(n * chunk, total as int),
    decreases n,
{
    if n > 0 {
        lemma_bytes_before(total, chunk, n - 1);
        lemma_range_at(total, chunk, n - 1);
        assert(ranges_of(total, chunk).take(n).drop_last() =~= ranges_of(total, chunk).take(n - 1));
        assert((n - 1) * chunk + chunk == n * chunk) by (nonlinear_arith);
    } else {
        assert(n * chunk == 0) by (nonlinear_arith)
            requires
                n == 0,
        ;
    }
}

/// The ranges together hold as many bytes as the resource.
pub proof fn law_ranges_hold_all_bytes(total: u64, chunk: u64)
    requires
        chunk > 0,
    ensures
        bytes_in(ranges_of(total, chunk)) == total,
{
    let count = range_count(total, chunk);
    law_ranges_are_contiguous(total, chunk);
    assert(ranges_of(total, chunk).take(count) =~= ranges_of(total, chunk));
    if total > 0 {
        lemma_range_at(total, chunk, count - 1);
        assert((count - 1) * chunk + chunk == count * chunk) by (nonlinear_arith);
        lemma_bytes_before(total, chunk, count);
    }
}

/// As many ranges are fetched at a time as are allowed, or as there are if those are
/// fewer; one where either is none.
pub proof fn law_permits_are_bounded(allowed: usize, count: nat)
    ensures
        permits_for(allowed, count) >= 1,
        allowed > 0 ==> permits_for(allowed, count) <= allowed,
        count > 0 ==> permits_for(allowed, count) <= count,
        allowed > 0 && count > 0 ==> permits_for(allowed, count) == allowed || permits_for(
            allowed,
            count,
        ) == count,
        allowed == 0 || count == 0 ==> permits_for(allowed, count) == 1,
{
}

} // verus!
