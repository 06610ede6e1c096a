//! Exact integer arithmetic shared by the statistics, control and metrics code.

use vstd::prelude::*;
use vstd::arithmetic::div_mod::lemma_fundamental_div_mod_converse;

verus! {

/// Raw steps per whole unit: a raw value `v` stands for `v / 1000`.
pub const SCALE: i64 = 1000;

/// Largest magnitude, in raw steps, that a sample, setpoint or gain may have.
pub const VALUE_LIMIT: i64 = 1_000_000_000;

/// Absolute value on mathematical integers.
pub open spec fn abs_int(x: int) -> int {
    if x < 0 {
        -x
    } else {
        x
    }
}

/// True when `r` is the integer square root of `n`: the largest `r` with `r * r <= n`.
pub open spec fn is_isqrt(n: int, r: int) -> bool {
    &&& 0 <= r
    &&& r * r <= n
    &&& n < (r + 1) * (r + 1)
}

/// The integer square root of `n`, for `n >= 0`.
pub open spec fn sqrt_floor(n: int) -> int {
    choose|r: int| is_isqrt(n, r)
}

/// At most one number is the integer square root of `n`.
pub proof fn lemma_isqrt_unique(n: int, a: int, b: int)
    requires
        is_isqrt(n, a),
        is_isqrt(n, b),
    ensures
        a == b,
{
    if a < b {
        assert((a + 1) * (a + 1) <= b * b) by (nonlinear_arith)
            requires
                0 <= a,
                a + 1 <= b,
        ;
    } else if b < a {
        assert((b + 1) * (b + 1) <= a * a) by (nonlinear_arith)
            requires
                0 <= b,
                b + 1 <= a,
        ;
    }
}

/// Every non-negative number has an integer square root, and `sqrt_floor` is it.
pub proof fn lemma_sqrt_floor(n: int)
    requires
        0 <= n,
    ensures
        is_isqrt(n, sqrt_floor(n)),
    decreases n,
{
    if n == 0 {
        assert(is_isqrt(0, 0));
    } else {
        lemma_sqrt_floor(n - 1);
        let r = sqrt_floor(n - 1);
        if n < (r + 1) * (r + 1) {
            assert(is_isqrt(n, r));
        } else {
            assert(n == (r + 1) * (r + 1));
            assert((r + 1) * (r + 1) < (r + 2) * (r + 2)) by (nonlinear_arith)
                requires
                    0 <= r,
            ;
            assert(is_isqrt(n, r + 1));
        }
    }
}

/// Sum of a sequence.
pub open spec fn seq_sum(s: Seq<int>) -> int
    decreases s.len(),
{
    if s.len() == 0 {
        0
    } else {
        seq_sum(s.drop_last()) + s.last()
    }
}

/// Sum of the squares of a sequence.
pub open spec fn seq_sum_sq(s: Seq<int>) -> int
    decreases s.len(),
{
    if s.len() == 0 {
        0
    } else {
        seq_sum_sq(s.drop_last()) + s.last() * s.last()
    }
}

/// Smallest element of a non-empty sequence.
pub open spec fn seq_min(s: Seq<int>) -> int
    decreases s.len(),
{
    if s.len() <= 1 {
        s.last()
    } else if s.last() < seq_min(s.drop_last()) {
        s.last()
    } else {
        seq_min(s.drop_last())
    }
}

/// Largest element of a non-empty sequence.
pub open spec fn seq_max(s: Seq<int>) -> int
    decreases s.len(),
{
    if s.len() <= 1 {
        s.last()
    } else if s.last() > seq_max(s.drop_last()) {
        s.last()
    } else {
        seq_max(s.drop_last())
    }
}

/// The smallest element occurs in the sequence and no element is below it;
/// likewise the largest.
pub proof fn lemma_seq_min_max(s: Seq<int>)
    requires
        s.len() > 0,
    ensures
        s.contains(seq_min(s)),
        s.contains(seq_max(s)),
        forall|i: int| 0 <= i < s.len() ==> seq_min(s) <= #[trigger] s[i] <= seq_max(s),
    decreases s.len(),
{
    if s.len() == 1 {
        assert(s[0] == s.last());
    } else {
        let front = s.drop_last();
        lemma_seq_min_max(front);
        let lo = choose|i: int| 0 <= i < front.len() && front[i] == seq_min(front);
        let hi = choose|i: int| 0 <= i < front.len() && front[i] == seq_max(front);
        assert(s[lo] == front[lo] && s[hi] == front[hi]);
        assert(s[s.len() - 1] == s.last());
        assert forall|i: int| 0 <= i < s.len() implies seq_min(s) <= #[trigger] s[i] <= seq_max(
            s,
        ) by {
            if i < front.len() {
                assert(s[i] == front[i]);
            }
        }
    }
}

/// Bounds on the sum and the sum of squares of a sequence whose elements all
/// lie within `limit` of zero.
pub proof fn lemma_sum_bounds(s: Seq<int>, limit: int)
    requires
        0 <= limit,
        forall|i: int| 0 <= i < s.len() ==> -limit <= #[trigger] s[i] <= limit,
    ensures
        -(s.len() * limit) <= seq_sum(s) <= s.len() * limit,
        0 <= seq_sum_sq(s) <= s.len() * (limit * limit),
    decreases s.len(),
{
    if s.len() > 0 {
        let front = s.drop_last();
        let x = s.last();
        assert forall|i: int| 0 <= i < front.len() implies -limit <= #[trigger] front[i]
            <= limit by {
            assert(front[i] == s[i]);
        }
        lemma_sum_bounds(front, limit);
        assert(-limit <= x <= limit) by {
            assert(x == s[s.len() - 1]);
        }
        assert(0 <= x * x <= limit * limit) by (nonlinear_arith)
            requires
                -limit <= x <= limit,
        ;
        assert(s.len() * limit == front.len() * limit + limit) by (nonlinear_arith)
            requires
                s.len() == front.len() + 1,
        ;
        assert(s.len() * (limit * limit) == front.len() * (limit * limit) + limit * limit)
            by (nonlinear_arith)
            requires
                s.len() == front.len() + 1,
        ;
    }
}

/// A sequence of machine integers read as mathematical integers.
pub open spec fn as_ints(s: Seq<u64>) -> Seq<int> {
    s.map_values(|x: u64| x as int)
}

/// Reading one more element extends the integer reading by that element.
pub proof fn lemma_as_ints_step(s: Seq<u64>, i: int)
    requires
        0 <= i < s.len(),
    ensures
        as_ints(s.take(i + 1)) == as_ints(s.take(i)).push(s[i] as int),
        as_ints(s.take(i + 1)).drop_last() == as_ints(s.take(i)),
        as_ints(s.take(i + 1)).last() == s[i] as int,
        as_ints(s.take(i + 1)).len() == i + 1,
{
    assert(as_ints(s.take(i + 1)) =~= as_ints(s.take(i)).push(s[i] as int));
    assert(as_ints(s.take(i + 1)).drop_last() =~= as_ints(s.take(i)));
}

/// Sum of the elements.
pub fn total(values: &Vec<u64>) -> (sum: u128)
    ensures
        sum == seq_sum(as_ints(values@)),
{
    let mut sum: u128 = 0;
    let mut i: usize = 0;
    while i < values.len()
        invariant
            i <= values.len(),
            sum == seq_sum(as_ints(values@.take(i as int))),
            sum <= i * u64::MAX,
        decreases values.len() - i,
    {
        proof {
            lemma_as_ints_step(values@, i as int);
            assert((i + 1) * u64::MAX == i * u64::MAX + u64::MAX) by (nonlinear_arith);
            assert(i * u64::MAX + u64::MAX <= u128::MAX) by (nonlinear_arith)
                requires
                    i <= usize::MAX,
                    usize::MAX <= u64::MAX,
            ;
        }
        sum = sum + values[i] as u128;
        i = i + 1;
    }
    proof {
        assert(values@.take(values.len() as int) =~= values@);
    }
    sum
}

/// Sum of the squares of the elements, none of which exceeds `limit`.
pub fn total_of_squares(values: &Vec<u64>, limit: u64) -> (sum: u128)
    requires
        forall|i: int| 0 <= i < values.len() ==> #[trigger] values[i] <= limit,
        values.len() * (limit * limit) <= u128::MAX,
    ensures
        sum == seq_sum_sq(as_ints(values@)),
        sum <= values.len() * (limit * limit),
{
    let mut sum: u128 = 0;
    let mut i: usize = 0;
    while i < values.len()
        invariant
            i <= values.len(),
            sum == seq_sum_sq(as_ints(values@.take(i as int))),
            sum <= i * (limit * limit),
            forall|k: int| 0 <= k < values.len() ==> #[trigger] values[k] <= limit,
            values.len() * (limit * limit) <= u128::MAX,
        decreases values.len() - i,
    {
        let x: u128 = values[i] as u128;
        proof {
            lemma_as_ints_step(values@, i as int);
            assert(x * x <= limit * limit) by (nonlinear_arith)
                requires
                    0 <= x <= limit,
            ;
            assert((i + 1) * (limit * limit) == i * (limit * limit) + limit * limit)
                by (nonlinear_arith);
            assert((i + 1) * (limit * limit) <= values.len() * (limit * limit))
                by (nonlinear_arith)
                requires
                    i + 1 <= values.len(),
            ;
        }
        sum = sum + x * x;
        i = i + 1;
    }
    proof {
        assert(values@.take(values.len() as int) =~= values@);
    }
    sum
}

/// Smallest element of a non-empty vector.
pub fn smallest(values: &Vec<u64>) -> (least: u64)
    requires
        values.len() > 0,
    ensures
        least == seq_min(as_ints(values@)),
{
    let mut least: u64 = values[0];
    let mut i: usize = 1;
    proof {
        lemma_as_ints_step(values@, 0);
    }
    while i < values.len()
        invariant
            1 <= i <= values.len(),
            least == seq_min(as_ints(values@.take(i as int))),
        decreases values.len() - i,
    {
        proof {
            lemma_as_ints_step(values@, i as int);
        }
        if values[i] < least {
            least = values[i];
        }
        i = i + 1;
    }
    proof {
        assert(values@.take(values.len() as int) =~= values@);
    }
    least
}

/// Largest element of a non-empty vector.
pub fn largest(values: &Vec<u64>) -> (most: u64)
    requires
        values.len() > 0,
    ensures
        most == seq_max(as_ints(values@)),
{
    let mut most: u64 = values[0];
    let mut i: usize = 1;
    proof {
        lemma_as_ints_step(values@, 0);
    }
    while i < values.len()
        invariant
            1 <= i <= values.len(),
            most == seq_max(as_ints(values@.take(i as int))),
        decreases values.len() - i,
    {
        proof {
            lemma_as_ints_step(values@, i as int);
        }
        if values[i] > most {
            most = values[i];
        }
        i = i + 1;
    }
    proof {
        assert(values@.take(values.len() as int) =~= values@);
    }
    most
}

/// Quotient rounded towards negative infinity.
pub fn div_floor(n: i128, d: i128) -> (q: i128)
    requires
        d > 0,
    ensures
        q == n as int / d as int,
{
    if n >= 0 {
        n / d
    } else {
        let m: i128 = -(n + 1);
        let k: i128 = m / d;
        let q: i128 = -k - 1;
        proof {
            let r = m as int % d as int;
            assert(m as int == d as int * k as int + r) by {
                vstd::arithmetic::div_mod::lemma_fundamental_div_mod(m as int, d as int);
            }
            assert(0 <= r < d);
            let r2 = d as int - 1 - r;
            assert(n as int == q as int * d as int + r2) by (nonlinear_arith)
                requires
                    m as int == d as int * k as int + r,
                    n as int == -(m as int) - 1,
                    q as int == -(k as int) - 1,
                    r2 == d as int - 1 - r,
            ;
            lemma_fundamental_div_mod_converse(n as int, d as int, q as int, r2);
        }
        q
    }
}

/// Integer square root: the largest `r` with `r * r <= n`.
pub fn isqrt(n: u128) -> (r: u64)
    ensures
        is_isqrt(n as int, r as int),
        r == sqrt_floor(n as int),
{
    let mut root: u128 = 0;
    let mut step: u128 = 0x8000_0000_0000_0000;
    assert(step & ((step - 1) as u128) == 0) by (bit_vector)
        requires
            step == 0x8000_0000_0000_0000u128,
    ;
    assert(n < (root + 2 * step) * (root + 2 * step)) by (nonlinear_arith)
        requires
            root == 0,
            step == 0x8000_0000_0000_0000,
            n <= u128::MAX,
    ;
    while step > 0
        invariant
            root * root <= n,
            n < (root + 2 * step) * (root + 2 * step) || (step == 0 && n < (root + 1) * (root + 1)),
            root + 2 * step <= 0x1_0000_0000_0000_0000,
            step == 0 || step & ((step - 1) as u128) == 0,
        decreases step,
    {
        let candidate: u128 = root + step;
        assert(candidate * candidate <= u128::MAX) by (nonlinear_arith)
            requires
                candidate < 0x1_0000_0000_0000_0000,
        ;
        let ghost old_root = root;
        if candidate * candidate <= n {
            root = candidate;
        }
        let next: u128 = step / 2;
        proof {
            if step == 1 {
                assert(n < (root + 1) * (root + 1));
            } else {
                assert(step % 2 == 0 && (step / 2) & ((step / 2 - 1) as u128) == 0) by (bit_vector)
                    requires
                        step > 1,
                        step & ((step - 1) as u128) == 0,
                ;
                assert(2 * next == step);
                if root == candidate {
                    assert(root + 2 * next == old_root + 2 * step);
                } else {
                    assert(root + 2 * next == candidate);
                }
            }
        }
        step = next;
    }
    proof {
        let r = sqrt_floor(n as int);
        assert(is_isqrt(n as int, root as int));
        lemma_isqrt_unique(n as int, root as int, r);
    }
    root as u64
}

} // verus!
