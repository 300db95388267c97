//! Prime search over an integer range, and the split of a range into
//! one stretch per searcher.

use vstd::prelude::*;

verus! {

/// `n` is at least 2 and no number between 2 and `n - 1` divides it.
pub open spec fn is_prime(n: int) -> bool {
    n >= 2 && forall|d: int| 2 <= d < n ==> #[trigger] (n % d) != 0
}

/// The primes `p` with `start <= p < end`, in ascending order.
pub open spec fn primes_between(start: int, end: int) -> Seq<i64>
    decreases end - start,
{
    if start >= end {
        Seq::empty()
    } else if is_prime(end - 1) {
        primes_between(start, end - 1).push((end - 1) as i64)
    } else {
        primes_between(start, end - 1)
    }
}

/// `primes_between` lists exactly the primes of the range, each once, in
/// ascending order.
pub proof fn lemma_primes_between(start: int, end: int)
    requires
        i64::MIN <= start,
        end <= i64::MAX + 1,
    ensures
        forall|k: int|
            0 <= k < primes_between(start, end).len() ==> {
                let p = #[trigger] primes_between(start, end)[k];
                start <= p < end && is_prime(p as int)
            },
        forall|j: int, k: int|
            0 <= j < k < primes_between(start, end).len() ==> primes_between(start, end)[j]
                < primes_between(start, end)[k],
        forall|p: int|
            start <= p < end && is_prime(p) ==> primes_between(start, end).contains(p as i64),
    decreases end - start,
{
    if start < end {
        lemma_primes_between(start, end - 1);
        let before = primes_between(start, end - 1);
        let all = primes_between(start, end);
        assert forall|p: int| start <= p < end && is_prime(p) implies all.contains(p as i64) by {
            if p < end - 1 {
                let k = choose|k: int| 0 <= k < before.len() && before[k] == p as i64;
                assert(all[k] == p as i64);
            } else {
                assert(all[all.len() - 1] == p as i64);
            }
        }
    }
}

/// Trial division: `num` is prime exactly when no number from 2 up to its
/// square root divides it.
fn has_no_divisor(num: i64) -> (prime: bool)
    requires
        num >= 2,
    ensures
        prime == is_prime(num as int),
{
    let mut i: i64 = 2;
    while i <= num / i
        invariant
            2 <= i <= num,
            num >= 2,
            forall|d: int| 2 <= d < i ==> #[trigger] (num as int % d) != 0,
        decreases num - i,
    {
        proof {
            let n = num as int;
            let b = i as int;
            assert(b * b <= n && b < n) by (nonlinear_arith)
                requires
                    2 <= b <= n / b,
                    0 <= n,
            ;
        }
        if num % i == 0 {
            return false;
        }
        i += 1;
    }
    proof {
        let n = num as int;
        let b = i as int;
        assert(n < b * b) by (nonlinear_arith)
            requires
                2 <= b,
                0 <= n,
                b > n / b,
        ;
        assert forall|d: int| 2 <= d < n implies #[trigger] (n % d) != 0 by {
            if d >= b && n % d == 0 {
                let e = n / d;
                assert(n == d * e && 2 <= e < b && n % e == 0) by (nonlinear_arith)
                    requires
                        2 <= b <= d < n,
                        n < b * b,
                        n % d == 0,
                        e == n / d,
                ;
            }
        }
    }
    true
}

/// The primes from `start` up to, and not including, `end`, in ascending
/// order: every entry is a prime of the range, every prime of the range is
/// an entry, and none comes twice.
pub fn find_primes(start: i64, end: i64) -> (primes: Vec<i64>)
    ensures
        primes@ == primes_between(start as int, end as int),
        forall|k: int|
            0 <= k < primes@.len() ==> start <= #[trigger] primes@[k] < end && is_prime(
                primes@[k] as int,
            ),
        forall|j: int, k: int| 0 <= j < k < primes@.len() ==> primes@[j] < primes@[k],
        forall|p: int| start <= p < end && is_prime(p) ==> primes@.contains(p as i64),
{
    let mut primes: Vec<i64> = Vec::new();
    let mut num: i64 = start;
    while num < end
        invariant
            start <= num <= end || (end < start && num == start),
            primes@ == primes_between(start as int, num as int),
        decreases end - num,
    {
        if num >= 2 && has_no_divisor(num) {
            primes.push(num);
        }
        num += 1;
    }
    proof {
        lemma_primes_between(start as int, end as int);
    }
    primes
}

/// Quotient of `a` by a positive `b`, rounded towards zero.
pub open spec fn quotient_towards_zero(a: int, b: int) -> int {
    if a >= 0 {
        a / b
    } else {
        -((-a) / b)
    }
}

/// `rest` halved `times` times, each time rounding towards zero.
pub open spec fn halved(rest: int, times: nat) -> int
    decreases times,
{
    if times == 0 {
        rest
    } else {
        quotient_towards_zero(halved(rest, (times - 1) as nat), 2)
    }
}

/// The lengths into which a range of `total` numbers is cut for `parts`
/// searchers: each gets the whole quotient of `total` by `parts`, and
/// stretch `k` adds what is left of the division's rest after `k + 1`
/// halvings.
pub open spec fn interval_lengths(total: int, parts: int) -> Seq<i64> {
    let base = quotient_towards_zero(total, parts);
    let rest = total - parts * base;
    Seq::new(parts as nat, |k: int| (base + halved(rest, (k + 1) as nat)) as i64)
}

/// Appends to `intervals` the lengths of the stretches into which the
/// range from `range_start` to `range_end` is cut for `num_threads`
/// searchers.
pub fn find_intervals(
    intervals: &mut Vec<i64>,
    range_start: i64,
    range_end: i64,
    num_threads: i64,
)
    requires
        num_threads >= 1,
        i64::MIN <= range_end - range_start <= i64::MAX,
    ensures
        final(intervals)@ == old(intervals)@ + interval_lengths(
            range_end - range_start,
            num_threads as int,
        ),
{
    let total_range_length: i64 = range_end - range_start;
    let base_interval_length: i64 = total_range_length / num_threads;
    let mut dividable_rest: i64 = total_range_length % num_threads;
    let ghost total = total_range_length as int;
    let ghost parts = num_threads as int;
    let ghost base = quotient_towards_zero(total, parts);
    let ghost rest = total - parts * base;
    proof {
        lemma_quotient_and_rest(total, parts);
    }
    let mut k: i64 = 0;
    while k < num_threads
        invariant
            0 <= k <= num_threads,
            parts == num_threads,
            base == base_interval_length,
            base == quotient_towards_zero(total, parts),
            rest == total - parts * base,
            dividable_rest == halved(rest, k as nat),
            i64::MIN <= total <= i64::MAX,
            (total >= 0 ==> 0 <= rest && 0 <= base && base + rest <= total),
            (total < 0 ==> rest <= 0 && base <= 0 && total <= base + rest),
            (rest >= 0 ==> 0 <= dividable_rest <= rest),
            (rest <= 0 ==> rest <= dividable_rest <= 0),
            intervals@ == old(intervals)@ + interval_lengths(total, parts).take(k as int),
        decreases num_threads - k,
    {
        dividable_rest = dividable_rest / 2;
        assert(dividable_rest == halved(rest, (k + 1) as nat));
        intervals.push(base_interval_length + dividable_rest);
        assert(intervals@ =~= old(intervals)@ + interval_lengths(total, parts).take(k + 1));
        k += 1;
    }
    assert(interval_lengths(total, parts).take(k as int) =~= interval_lengths(total, parts));
}

/// Where a stretch begins, counted from the start of the range: the sum of
/// the first `count` lengths.
pub open spec fn offset_of(intervals: Seq<i64>, count: int) -> int
    decreases count,
{
    if count <= 0 {
        0
    } else {
        offset_of(intervals, count - 1) + intervals[count - 1]
    }
}

/// Whether `value` is a 64-bit signed number.
pub open spec fn fits_i64(value: int) -> bool {
    i64::MIN <= value <= i64::MAX
}

/// The stretch of searcher `index`: it begins where the stretches before
/// it end, the first at `range_start`, and is `intervals[index]` long.
/// There is no such stretch if `intervals` has no such entry, or if a
/// bound of this or an earlier stretch is no 64-bit number.
pub fn stretch(intervals: &Vec<i64>, range_start: i64, index: usize) -> (bounds: Option<
    (i64, i64),
>)
    ensures
        match bounds {
            Some((low, high)) => {
                &&& index < intervals@.len()
                &&& low == range_start + offset_of(intervals@, index as int)
                &&& high == low + intervals@[index as int]
                &&& forall|k: int|
                    0 <= k <= index + 1 ==> fits_i64(
                        range_start + #[trigger] offset_of(intervals@, k),
                    )
            },
            None => {
                ||| index >= intervals@.len()
                ||| exists|k: int|
                    0 <= k <= index + 1 && !fits_i64(
                        range_start + #[trigger] offset_of(intervals@, k),
                    )
            },
        },
{
    if index >= intervals.len() {
        return None;
    }
    let mut low: i64 = range_start;
    let mut k: usize = 0;
    while k < index
        invariant
            k <= index < intervals@.len(),
            low == range_start + offset_of(intervals@, k as int),
            forall|j: int|
                0 <= j <= k ==> fits_i64(range_start + #[trigger] offset_of(intervals@, j)),
        decreases index - k,
    {
        match low.checked_add(intervals[k]) {
            Some(next) => {
                low = next;
            },
            None => {
                assert(!fits_i64(range_start + offset_of(intervals@, k + 1)));
                return None;
            },
        }
        k += 1;
    }
    match low.checked_add(intervals[index]) {
        Some(high) => Some((low, high)),
        None => {
            assert(!fits_i64(range_start + offset_of(intervals@, index + 1)));
            None
        },
    }
}

/// For a positive divisor, the quotient towards zero and its rest lie on
/// the dividend's side of zero and add up to no more than the dividend.
pub proof fn lemma_quotient_and_rest(total: int, parts: int)
    requires
        parts >= 1,
    ensures
        ({
            let base = quotient_towards_zero(total, parts);
            let rest = total - parts * base;
            &&& total >= 0 ==> 0 <= rest < parts && 0 <= base && base + rest <= total
            &&& total < 0 ==> -parts < rest <= 0 && base <= 0 && total <= base + rest
            &&& total >= 0 ==> rest == total % parts
            &&& total < 0 ==> rest == -((-total) % parts)
        }),
{
    let magnitude = if total >= 0 {
        total
    } else {
        -total
    };
    let q = magnitude / parts;
    let r = magnitude % parts;
    assert(magnitude == parts * q + r && 0 <= r < parts && 0 <= q && q + r <= magnitude)
        by (nonlinear_arith)
        requires
            parts >= 1,
            magnitude >= 0,
            q == magnitude / parts,
            r == magnitude % parts,
    ;
    if total < 0 {
        assert(parts * (-q) == -(parts * q)) by (nonlinear_arith);
    }
}

} // verus!
