//! Ordering of samples given by `i64` ordering keys: extreme positions and
//! the stable ascending order.
use vstd::prelude::*;

verus! {

/// `idx` is the first position holding the smallest key.
pub open spec fn is_first_min(keys: Seq<i64>, idx: int) -> bool {
    &&& 0 <= idx < keys.len()
    &&& forall|j: int| 0 <= j < keys.len() ==> keys[idx] <= #[trigger] keys[j]
    &&& forall|j: int| 0 <= j < idx ==> keys[idx] < #[trigger] keys[j]
}

/// `idx` is the first position holding the largest key.
pub open spec fn is_first_max(keys: Seq<i64>, idx: int) -> bool {
    &&& 0 <= idx < keys.len()
    &&& forall|j: int| 0 <= j < keys.len() ==> #[trigger] keys[j] <= keys[idx]
    &&& forall|j: int| 0 <= j < idx ==> #[trigger] keys[j] < keys[idx]
}

/// Position `a` comes before position `b` in the stable ascending order:
/// a smaller key first, and among equal keys the earlier position first.
pub open spec fn comes_before(keys: Seq<i64>, a: int, b: int) -> bool {
    keys[a] < keys[b] || (keys[a] == keys[b] && a < b)
}

/// `order` lists positions of `keys` in stable ascending order of their keys.
/// Since `comes_before` is a strict total order on positions, there is
/// exactly one such sequence, and it is a permutation of `0..keys.len()`.
pub open spec fn is_stable_order(keys: Seq<i64>, order: Seq<usize>) -> bool {
    &&& order.len() == keys.len()
    &&& forall|i: int| 0 <= i < order.len() ==> (#[trigger] order[i] as int) < keys.len()
    &&& forall|i: int, j: int|
        0 <= i < j < order.len() ==> comes_before(keys, #[trigger] order[i] as int, #[trigger] order[j] as int)
}

/// The first position of the smallest key.
pub fn first_min_index(keys: &Vec<i64>) -> (idx: usize)
    requires
        keys.len() > 0,
    ensures
        is_first_min(keys@, idx as int),
{
    let mut best: usize = 0;
    let mut j: usize = 1;
    while j < keys.len()
        invariant
            1 <= j <= keys.len(),
            best < j,
            forall|q: int| 0 <= q < j ==> keys@[best as int] <= #[trigger] keys@[q],
            forall|q: int| 0 <= q < best ==> keys@[best as int] < #[trigger] keys@[q],
        decreases keys.len() - j,
    {
        if keys[j] < keys[best] {
            best = j;
        }
        j = j + 1;
    }
    best
}

/// The first position of the largest key; 0 for an empty sequence.
pub fn first_max_index(keys: &Vec<i64>) -> (idx: usize)
    ensures
        keys.len() == 0 ==> idx == 0,
        keys.len() > 0 ==> is_first_max(keys@, idx as int),
{
    if keys.len() == 0 {
        return 0;
    }
    let mut best: usize = 0;
    let mut j: usize = 1;
    while j < keys.len()
        invariant
            1 <= j <= keys.len(),
            best < j,
            forall|q: int| 0 <= q < j ==> #[trigger] keys@[q] <= keys@[best as int],
            forall|q: int| 0 <= q < best ==> #[trigger] keys@[q] < keys@[best as int],
        decreases keys.len() - j,
    {
        if keys[best] < keys[j] {
            best = j;
        }
        j = j + 1;
    }
    best
}

/// The positions of `keys` in stable ascending order of their keys.
pub fn stable_sort_order(keys: &Vec<i64>) -> (order: Vec<usize>)
    ensures
        is_stable_order(keys@, order@),
        forall|x: usize| x < keys.len() ==> #[trigger] order@.contains(x),
{
    let n = keys.len();
    let mut order: Vec<usize> = Vec::new();
    let mut i: usize = 0;
    while i < n
        invariant
            n == keys.len(),
            i <= n,
            order.len() == i,
            forall|q: int| 0 <= q < order.len() ==> (#[trigger] order@[q] as int) < i,
            forall|q: int, r: int|
                0 <= q < r < order.len() ==> comes_before(keys@, #[trigger] order@[q] as int, #[trigger] order@[r] as int),
            forall|x: usize| x < i ==> #[trigger] order@.contains(x),
        decreases n - i,
    {
        let mut p: usize = 0;
        while p < order.len() && keys[order[p]] <= keys[i]
            invariant
                n == keys.len(),
                i < n,
                p <= order.len(),
                forall|q: int| 0 <= q < order.len() ==> (#[trigger] order@[q] as int) < i,
                forall|q: int| 0 <= q < p ==> keys@[#[trigger] order@[q] as int] <= keys@[i as int],
            decreases order.len() - p,
        {
            p = p + 1;
        }
        let ghost prev = order@;
        proof {
            assert forall|q: int| p <= q < prev.len() implies keys@[i as int] < keys@[#[trigger] prev[q] as int] by {
                if q > p {
                    assert(comes_before(keys@, prev[p as int] as int, prev[q] as int));
                }
            }
        }
        order.insert(p, i);
        proof {
            assert forall|q: int, r: int|
                0 <= q < r < order.len() implies comes_before(keys@, #[trigger] order@[q] as int, #[trigger] order@[r] as int) by {
                if r < p {
                    assert(order@[q] == prev[q] && order@[r] == prev[r]);
                } else if r == p {
                    assert(order@[q] == prev[q]);
                } else if q < p {
                    assert(order@[q] == prev[q] && order@[r] == prev[r - 1]);
                } else if q == p {
                    assert(order@[r] == prev[r - 1]);
                } else {
                    assert(order@[q] == prev[q - 1] && order@[r] == prev[r - 1]);
                }
            }
            assert forall|x: usize| x < i + 1 implies #[trigger] order@.contains(x) by {
                if x == i {
                    assert(order@[p as int] == i);
                } else {
                    assert(prev.contains(x));
                    let w = choose|w: int| 0 <= w < prev.len() && prev[w] == x;
                    if w < p {
                        assert(order@[w] == x);
                    } else {
                        assert(order@[w + 1] == x);
                    }
                }
            }
        }
        i = i + 1;
    }
    order
}

/// The bits of an IEEE-754 double that hold its magnitude (all but the sign).
pub open spec fn magnitude_bits(bits: u64) -> u64 {
    bits & 0x7fff_ffff_ffff_ffffu64
}

/// The sign bit of an IEEE-754 double is set.
pub open spec fn sign_set(bits: u64) -> bool {
    bits >= 0x8000_0000_0000_0000u64
}

/// The bits of an IEEE-754 double encode a NaN: all exponent bits set and
/// a nonzero fraction.
pub open spec fn is_nan_bits(bits: u64) -> bool {
    magnitude_bits(bits) > 0x7ff0_0000_0000_0000u64
}

/// The ordering key of the double with bit pattern `bits`: its magnitude
/// bits, negated for a negative sign. Both zeros get the key 0.
pub open spec fn spec_ordering_key(bits: u64) -> int {
    if sign_set(bits) {
        -(magnitude_bits(bits) as int)
    } else {
        magnitude_bits(bits) as int
    }
}

/// The order of IEEE-754 doubles that are not NaN, read off their bit
/// patterns: zeros of either sign are equal; a negative number is below
/// every nonnegative one; among numbers of one sign a larger magnitude
/// field means a larger magnitude.
pub open spec fn ieee_less(a: u64, b: u64) -> bool {
    let ma = magnitude_bits(a);
    let mb = magnitude_bits(b);
    if ma == 0 && mb == 0 {
        false
    } else if !sign_set(a) && !sign_set(b) {
        ma < mb
    } else if sign_set(a) && sign_set(b) {
        mb < ma
    } else {
        sign_set(a)
    }
}

/// The ordering key of the double whose bit pattern is `bits` (as given by
/// `f64::to_bits`), or `None` for a NaN, which is not ordered.
pub fn ordering_key(bits: u64) -> (key: Option<i64>)
    ensures
        key == (if is_nan_bits(bits) {
            None
        } else {
            Some(spec_ordering_key(bits) as i64)
        }),
        key matches Some(k) ==> k as int == spec_ordering_key(bits),
{
    let magnitude = bits & 0x7fff_ffff_ffff_ffffu64;
    assert(magnitude <= 0x7fff_ffff_ffff_ffffu64) by (bit_vector)
        requires
            magnitude == bits & 0x7fff_ffff_ffff_ffffu64,
    ;
    if magnitude > 0x7ff0_0000_0000_0000u64 {
        None
    } else if bits >= 0x8000_0000_0000_0000u64 {
        Some(-(magnitude as i64))
    } else {
        Some(magnitude as i64)
    }
}

/// Ordering keys order doubles (other than NaN) as the numbers they encode.
pub proof fn lemma_ordering_key_follows_ieee_order(a: u64, b: u64)
    requires
        !is_nan_bits(a),
        !is_nan_bits(b),
    ensures
        spec_ordering_key(a) < spec_ordering_key(b) <==> ieee_less(a, b),
        spec_ordering_key(a) == spec_ordering_key(b) <==> !ieee_less(a, b) && !ieee_less(b, a),
{
}

} // verus!
