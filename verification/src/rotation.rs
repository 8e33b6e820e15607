//! The rotation rule of the scheduler: from a kind's position, the next
//! enabled position in fixed declaration order, wrapping around; and the
//! proof that repeated advancing is a total cyclic order over the enabled
//! positions.

use vstd::prelude::*;
use vstd::arithmetic::div_mod::{
    lemma_add_mod_noop, lemma_add_mod_noop_right, lemma_mod_multiples_vanish, lemma_small_mod,
};

verus! {

/// The number of enabled flags in `s`.
pub open spec fn count_true(s: Seq<bool>) -> nat
    decreases s.len(),
{
    if s.len() == 0 {
        0
    } else {
        count_true(s.drop_last()) + (if s.last() {
            1nat
        } else {
            0nat
        })
    }
}

/// The number of enabled positions strictly before position `j`.
pub open spec fn rank(s: Seq<bool>, j: int) -> nat
    recommends
        0 <= j <= s.len(),
{
    count_true(s.take(j))
}

/// The first enabled position at or after `i`, if any.
pub open spec fn first_enabled_from(s: Seq<bool>, i: int) -> Option<int>
    recommends
        0 <= i,
    decreases s.len() - i when i <= s.len()
{
    if i >= s.len() {
        None
    } else if s[i] {
        Some(i)
    } else {
        first_enabled_from(s, i + 1)
    }
}

/// The first enabled position, if any: the initial active kind of a run.
pub open spec fn first_enabled(s: Seq<bool>) -> Option<int> {
    first_enabled_from(s, 0)
}

/// The first enabled position at cyclic offset `d` or more from `k`, if any
/// offset up to a full cycle finds one.
pub open spec fn advance_from(s: Seq<bool>, k: int, d: int) -> Option<int>
    recommends
        0 <= k < s.len(),
        1 <= d <= s.len(),
    decreases s.len() - d when d <= s.len()
{
    let j = (k + d) % (s.len() as int);
    if s[j] {
        Some(j)
    } else if d >= s.len() {
        None
    } else {
        advance_from(s, k, d + 1)
    }
}

/// The next enabled position after `k`, wrapping around; `k` itself when it
/// is the only enabled one; `None` when no position is enabled.
pub open spec fn spec_advance(s: Seq<bool>, k: int) -> Option<int> {
    advance_from(s, k, 1)
}

/// Counting one more flag extends the count by that flag.
proof fn lemma_count_take_step(s: Seq<bool>, i: int)
    requires
        0 <= i < s.len(),
    ensures
        count_true(s.take(i + 1)) == count_true(s.take(i)) + (if s[i] {
            1nat
        } else {
            0nat
        }),
{
    assert(s.take(i + 1).drop_last() =~= s.take(i));
    assert(s.take(i + 1).last() == s[i]);
}

/// Ranks grow with the position, and an enabled position strictly raises
/// the rank of everything after it.
proof fn lemma_rank_monotone(s: Seq<bool>, i: int, j: int)
    requires
        0 <= i <= j <= s.len(),
    ensures
        rank(s, i) <= rank(s, j),
        i < j && s[i] ==> rank(s, i) < rank(s, j),
    decreases j - i,
{
    if i < j {
        lemma_count_take_step(s, i);
        lemma_rank_monotone(s, i + 1, j);
    }
}

/// The rank of an enabled position lies below the total count.
proof fn lemma_rank_enabled_lt(s: Seq<bool>, j: int)
    requires
        0 <= j < s.len(),
        s[j],
    ensures
        rank(s, j) < count_true(s),
{
    lemma_rank_monotone(s, j, s.len() as int);
    assert(s.take(s.len() as int) =~= s);
}

/// Two enabled positions with the same rank are the same position.
proof fn lemma_rank_same_position(s: Seq<bool>, i: int, j: int)
    requires
        0 <= i < s.len(),
        0 <= j < s.len(),
        s[i],
        s[j],
        rank(s, i) == rank(s, j),
    ensures
        i == j,
{
    if i < j {
        lemma_rank_monotone(s, i, j);
    }
    if j < i {
        lemma_rank_monotone(s, j, i);
    }
}

/// Every rank below the total count is taken by some enabled position.
proof fn lemma_rank_surjective(s: Seq<bool>, r: nat)
    requires
        r < count_true(s),
    ensures
        exists|j: int| 0 <= j < s.len() && s[j] && #[trigger] rank(s, j) == r,
    decreases s.len(),
{
    let shorter = s.drop_last();
    if r < count_true(shorter) {
        lemma_rank_surjective(shorter, r);
        let j = choose|j: int| 0 <= j < shorter.len() && shorter[j] && #[trigger] rank(shorter, j)
            == r;
        assert(s.take(j) =~= shorter.take(j));
        assert(0 <= j < s.len() && s[j] && rank(s, j) == r);
    } else {
        let j = s.len() - 1;
        assert(s.take(j) =~= shorter);
        assert(s.last());
        assert(0 <= j < s.len() && s[j] && rank(s, j) == r);
    }
}

/// A count of zero means every flag is disabled, and conversely.
pub proof fn lemma_count_zero(s: Seq<bool>)
    ensures
        (count_true(s) == 0) <==> (forall|j: int| 0 <= j < s.len() ==> !s[j]),
    decreases s.len(),
{
    if s.len() > 0 {
        lemma_count_zero(s.drop_last());
        assert(forall|j: int| 0 <= j < s.len() - 1 ==> s[j] == s.drop_last()[j]);
        if count_true(s) == 0 {
            assert(forall|j: int| 0 <= j < s.len() ==> !s[j]) by {
                assert(!s.last());
            }
        }
    }
}

/// A failed scan from offset `d` on means every position at offset `d` or
/// more is disabled.
proof fn lemma_advance_from_none(s: Seq<bool>, k: int, d: int)
    requires
        0 <= k < s.len(),
        1 <= d <= s.len(),
        advance_from(s, k, d) is None,
    ensures
        forall|e: int| d <= e <= s.len() ==> !s[#[trigger] ((k + e) % (s.len() as int))],
    decreases s.len() - d,
{
    if d < s.len() {
        lemma_advance_from_none(s, k, d + 1);
    }
}

/// Advancing finds nothing exactly when no position is enabled.
pub proof fn lemma_advance_none(s: Seq<bool>, k: int)
    requires
        0 <= k < s.len(),
    ensures
        (spec_advance(s, k) is None) <==> (count_true(s) == 0),
{
    let n = s.len() as int;
    lemma_count_zero(s);
    if spec_advance(s, k) is None {
        lemma_advance_from_none(s, k, 1);
        assert(forall|j: int| 0 <= j < n ==> !s[j]) by {
            assert forall|j: int| 0 <= j < n implies !s[j] by {
                let e = if j > k {
                    j - k
                } else {
                    j - k + n
                };
                assert(1 <= e <= n);
                lemma_mod_multiples_vanish(if j > k { 0 } else { 1 }, j, n);
                lemma_small_mod(j as nat, n as nat);
                assert((k + e) % n == j);
            }
        }
    }
    if count_true(s) == 0 {
        lemma_advance_from_all_false(s, k, 1);
    }
}

/// Scanning over only disabled positions finds nothing.
proof fn lemma_advance_from_all_false(s: Seq<bool>, k: int, d: int)
    requires
        0 <= k < s.len(),
        1 <= d <= s.len(),
        forall|j: int| 0 <= j < s.len() ==> !s[j],
    ensures
        advance_from(s, k, d) is None,
    decreases s.len() - d,
{
    if d < s.len() {
        lemma_advance_from_all_false(s, k, d + 1);
    }
}

/// A found position is in range and enabled.
proof fn lemma_advance_from_some(s: Seq<bool>, k: int, d: int)
    requires
        0 <= k < s.len(),
        1 <= d <= s.len(),
        advance_from(s, k, d) is Some,
    ensures
        advance_from(s, k, d) matches Some(j) && 0 <= j < s.len() && s[j],
    decreases s.len() - d,
{
    if !s[(k + d) % (s.len() as int)] && d < s.len() {
        lemma_advance_from_some(s, k, d + 1);
    }
}

/// What advancing returns is in range and enabled.
pub proof fn lemma_advance_some(s: Seq<bool>, k: int)
    requires
        0 <= k < s.len(),
        spec_advance(s, k) is Some,
    ensures
        spec_advance(s, k) matches Some(j) && 0 <= j < s.len() && s[j],
{
    lemma_advance_from_some(s, k, 1);
}

/// A scan starting at `d0` lands on the first enabled cyclic offset `d`.
proof fn lemma_advance_first_hit(s: Seq<bool>, k: int, d0: int, d: int)
    requires
        0 <= k < s.len(),
        1 <= d0 <= d <= s.len(),
        s[(k + d) % (s.len() as int)],
        forall|e: int| d0 <= e < d ==> !s[#[trigger] ((k + e) % (s.len() as int))],
    ensures
        advance_from(s, k, d0) == Some((k + d) % (s.len() as int)),
    decreases d - d0,
{
    if d0 < d {
        lemma_advance_first_hit(s, k, d0 + 1, d);
    }
}

/// Advancing from an enabled position lands on the enabled position of the
/// next rank, cyclically.
proof fn lemma_advance_rank(s: Seq<bool>, k: int)
    requires
        0 <= k < s.len(),
        s[k],
    ensures
        spec_advance(s, k) matches Some(j) && 0 <= j < s.len() && s[j] && rank(s, j) == ((rank(
            s,
            k,
        ) as int + 1) % (count_true(s) as int)),
{
    let n = s.len() as int;
    let c = count_true(s) as int;
    let r = rank(s, k) as int;
    lemma_rank_enabled_lt(s, k);
    if r + 1 < c {
        lemma_rank_surjective(s, (r + 1) as nat);
        let j = choose|j: int| 0 <= j < s.len() && s[j] && #[trigger] rank(s, j) == r + 1;
        if j < k {
            lemma_rank_monotone(s, j, k);
        }
        assert(k < j);
        assert forall|e: int| 1 <= e < j - k implies !s[#[trigger] ((k + e) % n)] by {
            lemma_small_mod((k + e) as nat, n as nat);
            if s[k + e] {
                lemma_rank_monotone(s, k, k + e);
                lemma_rank_monotone(s, k + e, j);
            }
        }
        lemma_small_mod(j as nat, n as nat);
        assert((k + (j - k)) % n == j);
        lemma_advance_first_hit(s, k, 1, j - k);
        lemma_small_mod((r + 1) as nat, c as nat);
    } else {
        lemma_rank_surjective(s, 0);
        let j = choose|j: int| 0 <= j < s.len() && s[j] && #[trigger] rank(s, j) == 0;
        if j > k {
            lemma_rank_monotone(s, k, j);
        }
        assert(j <= k);
        let d = n - k + j;
        assert(1 <= d <= n);
        lemma_mod_multiples_vanish(1, j, n);
        lemma_small_mod(j as nat, n as nat);
        assert((k + d) % n == j);
        assert forall|e: int| 1 <= e < d implies !s[#[trigger] ((k + e) % n)] by {
            if e < n - k {
                lemma_small_mod((k + e) as nat, n as nat);
                if s[k + e] {
                    lemma_rank_monotone(s, k, k + e);
                    lemma_rank_enabled_lt(s, k + e);
                }
            } else {
                let p = k + e - n;
                lemma_mod_multiples_vanish(1, p, n);
                lemma_small_mod(p as nat, n as nat);
                assert((k + e) % n == p);
                if s[p] {
                    lemma_rank_monotone(s, p, j);
                }
            }
        }
        lemma_advance_first_hit(s, k, 1, d);
        lemma_mod_multiples_vanish(1, 0, c);
        lemma_small_mod(0, c as nat);
    }
}

/// The active position after `m` successive advances from `k`. (The
/// fallback arm is never taken when some position is enabled.)
pub open spec fn iter_advance(s: Seq<bool>, k: int, m: nat) -> int
    decreases m,
{
    if m == 0 {
        k
    } else {
        match spec_advance(s, iter_advance(s, k, (m - 1) as nat)) {
            Some(j) => j,
            None => k,
        }
    }
}

/// After `m` advances from an enabled position, the active position is the
/// enabled one whose rank lies `m` past the start's rank, cyclically.
proof fn lemma_iter_advance_rank(s: Seq<bool>, k: int, m: nat)
    requires
        0 <= k < s.len(),
        s[k],
    ensures
        0 <= iter_advance(s, k, m) < s.len(),
        s[iter_advance(s, k, m)],
        rank(s, iter_advance(s, k, m)) == ((rank(s, k) as int + m as int) % (count_true(s) as int)),
    decreases m,
{
    let c = count_true(s) as int;
    lemma_rank_enabled_lt(s, k);
    if m == 0 {
        lemma_small_mod(rank(s, k), c as nat);
    } else {
        lemma_iter_advance_rank(s, k, (m - 1) as nat);
        let prev = iter_advance(s, k, (m - 1) as nat);
        lemma_advance_rank(s, prev);
        lemma_add_mod_noop_right(1, rank(s, k) + m - 1, c);
    }
}

/// Two cyclic offsets within one cycle land on different remainders.
proof fn lemma_mod_distinct(r: int, m1: int, m2: int, c: int)
    requires
        0 < c,
        0 <= r < c,
        0 <= m1 < m2 < c,
    ensures
        (r + m1) % c != (r + m2) % c,
{
    if r + m1 < c {
        lemma_small_mod((r + m1) as nat, c as nat);
    } else {
        lemma_mod_multiples_vanish(1, r + m1 - c, c);
        lemma_small_mod((r + m1 - c) as nat, c as nat);
    }
    if r + m2 < c {
        lemma_small_mod((r + m2) as nat, c as nat);
    } else {
        lemma_mod_multiples_vanish(1, r + m2 - c, c);
        lemma_small_mod((r + m2 - c) as nat, c as nat);
    }
}

/// Rotation is a total cyclic order over the enabled positions: starting
/// from any enabled position and advancing once per enabled position
/// returns to the start, stays on enabled positions throughout, visits no
/// position twice before the cycle closes, and reaches every enabled
/// position — so each is visited exactly once and no disabled one ever.
pub proof fn lemma_rotation_cyclic(s: Seq<bool>, k: int)
    requires
        0 <= k < s.len(),
        s[k],
    ensures
        iter_advance(s, k, count_true(s)) == k,
        forall|m: nat|
            m < count_true(s) ==> 0 <= #[trigger] iter_advance(s, k, m) < s.len() && s[iter_advance(
                s,
                k,
                m,
            )],
        forall|m1: nat, m2: nat|
            m1 < m2 < count_true(s) ==> #[trigger] iter_advance(s, k, m1) != #[trigger] iter_advance(
                s,
                k,
                m2,
            ),
        forall|j: int|
            0 <= j < s.len() && #[trigger] s[j] ==> exists|m: nat|
                m < count_true(s) && iter_advance(s, k, m) == j,
{
    let c = count_true(s) as int;
    let r = rank(s, k) as int;
    lemma_rank_enabled_lt(s, k);

    lemma_iter_advance_rank(s, k, count_true(s));
    lemma_mod_multiples_vanish(1, r, c);
    lemma_small_mod(r as nat, c as nat);
    lemma_rank_same_position(s, iter_advance(s, k, count_true(s)), k);

    assert forall|m: nat| m < count_true(s) implies 0 <= #[trigger] iter_advance(s, k, m) < s.len()
        && s[iter_advance(s, k, m)] by {
        lemma_iter_advance_rank(s, k, m);
    }

    assert forall|m1: nat, m2: nat| m1 < m2 < count_true(s) implies #[trigger] iter_advance(
        s,
        k,
        m1,
    ) != #[trigger] iter_advance(s, k, m2) by {
        lemma_iter_advance_rank(s, k, m1);
        lemma_iter_advance_rank(s, k, m2);
        lemma_mod_distinct(r, m1 as int, m2 as int, c);
    }

    assert forall|j: int| 0 <= j < s.len() && #[trigger] s[j] implies exists|m: nat|
        m < count_true(s) && iter_advance(s, k, m) == j by {
        let q = rank(s, j) as int;
        lemma_rank_enabled_lt(s, j);
        let m = if q >= r {
            q - r
        } else {
            q - r + c
        };
        assert(0 <= m < c);
        lemma_iter_advance_rank(s, k, m as nat);
        if q >= r {
            lemma_small_mod(q as nat, c as nat);
        } else {
            lemma_mod_multiples_vanish(1, q, c);
            lemma_small_mod(q as nat, c as nat);
        }
        lemma_rank_same_position(s, iter_advance(s, k, m as nat), j);
        assert((m as nat) < count_true(s) && iter_advance(s, k, m as nat) == j);
    }
}

/// What a scan from position `i` on finds, related to what is there.
proof fn lemma_first_enabled_from(s: Seq<bool>, i: int)
    requires
        0 <= i <= s.len(),
    ensures
        (first_enabled_from(s, i) is None) ==> (forall|j: int| i <= j < s.len() ==> !s[j]),
        first_enabled_from(s, i) matches Some(j) ==> i <= j < s.len() && s[j],
        (exists|j: int| i <= j < s.len() && s[j]) ==> first_enabled_from(s, i) is Some,
    decreases s.len() - i,
{
    if i < s.len() && !s[i] {
        lemma_first_enabled_from(s, i + 1);
        if exists|j: int| i <= j < s.len() && s[j] {
            let j = choose|j: int| i <= j < s.len() && s[j];
            assert(i + 1 <= j < s.len() && s[j]);
        }
    }
}

/// A first enabled position exists exactly when some kind is enabled, and
/// is itself enabled.
pub proof fn lemma_first_enabled(s: Seq<bool>)
    ensures
        (first_enabled(s) is None) <==> (count_true(s) == 0),
        first_enabled(s) matches Some(j) ==> 0 <= j < s.len() && s[j],
{
    lemma_count_zero(s);
    lemma_first_enabled_from(s, 0);
}

/// The next enabled position after `k` in fixed order, wrapping around, or
/// `None` when no position is enabled.
pub fn advance(enabled: &Vec<bool>, k: usize) -> (r: Option<usize>)
    requires
        k < enabled@.len(),
    ensures
        (match r {
            Some(j) => j < enabled@.len() && spec_advance(enabled@, k as int) == Some(j as int),
            None => spec_advance(enabled@, k as int) is None,
        }),
{
    let n = enabled.len();
    let mut j = k;
    let mut d: usize = 0;
    proof {
        lemma_small_mod(k as nat, n as nat);
    }
    while d < n
        invariant
            n == enabled@.len(),
            k < n,
            j < n,
            d <= n,
            j as int == (k as int + d as int) % (n as int),
            spec_advance(enabled@, k as int) == (if d < n {
                advance_from(enabled@, k as int, d as int + 1)
            } else {
                None::<int>
            }),
        decreases n - d,
    {
        proof {
            lemma_add_mod_noop_right(1, k as int + d as int, n as int);
            if j + 1 == n {
                lemma_mod_multiples_vanish(1, 0, n as int);
                lemma_small_mod(0, n as nat);
            } else {
                lemma_small_mod((j + 1) as nat, n as nat);
            }
        }
        j = if j + 1 == n {
            0
        } else {
            j + 1
        };
        d = d + 1;
        if enabled[j] {
            return Some(j);
        }
    }
    None
}

/// The initial active position of a run: the first enabled position in
/// fixed priority order, or `None` when every kind is disabled.
pub fn initial_active(enabled: &Vec<bool>) -> (r: Option<usize>)
    ensures
        (match r {
            Some(j) => j < enabled@.len() && first_enabled(enabled@) == Some(j as int),
            None => first_enabled(enabled@) is None,
        }),
{
    let n = enabled.len();
    let mut i: usize = 0;
    while i < n
        invariant
            n == enabled@.len(),
            i <= n,
            first_enabled(enabled@) == first_enabled_from(enabled@, i as int),
        decreases n - i,
    {
        if enabled[i] {
            return Some(i);
        }
        i = i + 1;
    }
    None
}

/// The number of enabled kinds.
pub fn enabled_count(enabled: &Vec<bool>) -> (r: usize)
    ensures
        r as nat == count_true(enabled@),
{
    let n = enabled.len();
    let mut count: usize = 0;
    let mut i: usize = 0;
    assert(count_true(enabled@.take(0)) == 0);
    while i < n
        invariant
            n == enabled@.len(),
            i <= n,
            count <= i,
            count as nat == count_true(enabled@.take(i as int)),
        decreases n - i,
    {
        proof {
            lemma_count_take_step(enabled@, i as int);
        }
        if enabled[i] {
            count = count + 1;
        }
        i = i + 1;
    }
    proof {
        assert(enabled@.take(n as int) =~= enabled@);
    }
    count
}

} // verus!
