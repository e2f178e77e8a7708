//! Why the exchanges of the generator lead through every ordering once.
//!
//! The walk through the orderings of the first `m + 1` items consists of
//! `m + 1` walks through the orderings of the first `m` items, with one
//! exchange between each two of them that brings a new item to place `m`.
//! What a whole walk does to an arrangement is known in closed form, and
//! from that the item that each of the exchanges brings to place `m`.
use vstd::prelude::*;
use vstd::arithmetic::div_mod::lemma_mod_multiples_vanish;
use crate::perms::{
    arranged, factorial, lemma_factorial_positive, lemma_factorial_rising, lemma_rising_positive,
    lemma_transposition_rising, rising, swapped, transposition, transposition_from,
};

verus! {

/// The factorial of the next number.
pub proof fn lemma_factorial_step(m: nat)
    ensures
        factorial(m + 1) == (m + 1) * factorial(m),
        factorial(m) >= 1,
{
    lemma_factorial_positive(m);
}

/// The rising product from one is the factorial.
pub proof fn lemma_rising_one(m: nat)
    requires
        m >= 1,
    ensures
        rising(1, m) == factorial(m),
{
    lemma_factorial_rising(1, m);
    assert(factorial(1) == 1 * factorial(0));
    assert(factorial(1) * rising(1, m) == rising(1, m)) by (nonlinear_arith)
        requires
            factorial(1) == 1,
    ;
}

/// A step that the levels below `m` decide is decided in the same way
/// whatever the levels from `m` on have counted.
pub proof fn lemma_transposition_shift(x: nat, q: nat, i: nat, m: nat)
    requires
        1 <= i <= m,
        0 < x < rising(i, m),
    ensures
        transposition_from(x + q * rising(i, m), i) == transposition_from(x, i),
        transposition_from(x, i).0 < transposition_from(x, i).1 < m,
    decreases m - i,
{
    if i < m {
        let above = rising(i + 1, m);
        let shifted = x + q * rising(i, m);
        lemma_rising_positive(i + 1, m);
        assert(shifted == (i + 1) * (q * above) + x) by (nonlinear_arith)
            requires
                shifted == x + q * ((i + 1) * above),
        ;
        lemma_mod_multiples_vanish((q * above) as int, x as int, (i + 1) as int);
        assert(shifted % (i + 1) == x % (i + 1));
        if x % (i + 1) != 0 {
            assert((x % (i + 1)) <= i) by (nonlinear_arith)
                requires
                    i >= 1,
            ;
        } else {
            let y = x / (i + 1);
            assert(x == y * (i + 1) && y > 0 && y < above) by (nonlinear_arith)
                requires
                    y == x / (i + 1),
                    x % (i + 1) == 0,
                    0 < x < (i + 1) * above,
                    i >= 1,
            ;
            assert(shifted / (i + 1) == y + q * above) by (nonlinear_arith)
                requires
                    shifted == (i + 1) * (q * above) + x,
                    x == y * (i + 1),
                    i >= 1,
            ;
            lemma_transposition_shift(y, q, i + 1, m);
        }
    }
}

/// Within a walk through the orderings of the first `m` items the steps
/// are the same whatever walks went before, and they exchange two
/// different places among the first `m`.
pub proof fn lemma_transposition_low(r: nat, q: nat, m: nat)
    requires
        m >= 1,
        0 < r < factorial(m),
    ensures
        transposition(q * factorial(m) + r) == transposition(r),
        transposition(r).0 < transposition(r).1 < m,
{
    lemma_rising_one(m);
    lemma_transposition_shift(r, q, 1, m);
    assert(q * factorial(m) + r == r + q * rising(1, m));
}

/// Between two walks through the orderings of the first `m` items, place
/// `m` is exchanged with place 0 where `m` is even, and else with the place
/// that counts the walks that went before.
pub proof fn lemma_transposition_block(q: nat, m: nat)
    requires
        1 <= q <= m,
    ensures
        transposition(q * factorial(m)) == (
            if m % 2 == 0 {
                0nat
            } else {
                (q - 1) as nat
            },
            m,
        ),
{
    lemma_rising_one(m);
    lemma_transposition_rising(q, 1, m);
    assert(q % (m + 1) == q) by (nonlinear_arith)
        requires
            1 <= q <= m,
    ;
}

/// The steps before step `m!` leave the places from `m` on alone and keep
/// the items that there are.
pub proof fn lemma_arranged_local<T>(s: Seq<T>, m: nat, k: nat)
    requires
        m <= s.len(),
        k < factorial(m),
    ensures
        arranged(s, k).len() == s.len(),
        forall|j: int| m <= j < s.len() ==> arranged(s, k)[j] == s[j],
        arranged(s, k).to_multiset() == s.to_multiset(),
        s.no_duplicates() ==> arranged(s, k).no_duplicates(),
    decreases k,
{
    if k > 0 {
        lemma_arranged_local(s, m, (k - 1) as nat);
        assert(m >= 1) by {
            if m == 0 {
                assert(factorial(0) == 1);
            }
        }
        lemma_transposition_low(k, 0, m);
        assert(0 * factorial(m) + k == k) by (nonlinear_arith);
        let before = arranged(s, (k - 1) as nat);
        let pair = transposition(k);
        lemma_swapped(before, pair.0 as int, pair.1 as int);
    }
}

/// An exchange of two places keeps the items that there are.
pub proof fn lemma_swapped<T>(s: Seq<T>, a: int, b: int)
    requires
        0 <= a < s.len(),
        0 <= b < s.len(),
    ensures
        swapped(s, a, b).len() == s.len(),
        swapped(s, a, b).to_multiset() == s.to_multiset(),
        s.no_duplicates() ==> swapped(s, a, b).no_duplicates(),
        forall|j: int| 0 <= j < s.len() && j != a && j != b ==> swapped(s, a, b)[j] == s[j],
        swapped(s, a, b)[a] == s[b],
        swapped(s, a, b)[b] == s[a],
{
    broadcast use vstd::multiset::group_multiset_axioms;

    let mid = s.update(a, s[b]);
    vstd::seq_lib::to_multiset_update(s, a, s[b]);
    vstd::seq_lib::to_multiset_update(mid, b, s[a]);
    vstd::seq_lib::to_multiset_contains(s, s[a]);
    vstd::seq_lib::to_multiset_contains(s, s[b]);
    assert(s.contains(s[a]));
    assert(s.contains(s[b]));
    assert(swapped(s, a, b).to_multiset() =~= s.to_multiset());
}

/// The steps of a later walk through the orderings of the first `m` items
/// do to the arrangement at which the walk starts what the steps of the
/// first such walk do to the first arrangement.
pub proof fn lemma_arranged_split<T>(s: Seq<T>, q: nat, m: nat, r: nat)
    requires
        m >= 1,
        r < factorial(m),
    ensures
        arranged(s, q * factorial(m) + r) == arranged(arranged(s, q * factorial(m)), r),
    decreases r,
{
    if r > 0 {
        lemma_arranged_split(s, q, m, (r - 1) as nat);
        lemma_transposition_low(r, q, m);
        assert((q * factorial(m) + r - 1) as nat == q * factorial(m) + (r - 1) as nat);
    }
}

/// The place from which a whole walk through the orderings of the first `m`
/// items brings the item that ends at place `j`.
///
/// Such a walk leaves the places from `m` on alone. Where `m` is odd, it
/// exchanges the first and the last of the `m` places. Where `m` is even,
/// it takes all `m` places round in one cycle.
pub open spec fn end_source(m: int, j: int) -> int {
    if j >= m {
        j
    } else if m % 2 == 1 {
        if j == 0 {
            m - 1
        } else if j == m - 1 {
            0
        } else {
            j
        }
    } else if m == 2 {
        1 - j
    } else if j == 0 {
        m - 3
    } else if j == 1 {
        m - 2
    } else if j <= m - 3 {
        j - 1
    } else if j == m - 2 {
        m - 1
    } else {
        0
    }
}

/// For even `m`: the places `0..=m` in the order of the cycle in which a
/// walk through the orderings of the first `m` items, followed by the
/// exchange of places 0 and `m`, takes them round. The item at a place
/// comes from the place that follows in this order.
pub open spec fn cycle(m: int, i: int) -> int {
    if m == 2 {
        2 - i
    } else if i == 0 {
        m
    } else if i <= m - 3 {
        m - 2 - i
    } else if i == m - 2 {
        m - 2
    } else if i == m - 1 {
        m - 1
    } else {
        0
    }
}

/// Where a place stands in the order of [`cycle`].
pub open spec fn cycle_index(m: int, j: int) -> int {
    if m == 2 {
        2 - j
    } else if j == m {
        0
    } else if j == 0 {
        m
    } else if j <= m - 3 {
        m - 2 - j
    } else {
        j
    }
}

/// `x` taken once round a cycle of `n`.
pub open spec fn wrap(x: int, n: int) -> int {
    if x >= n {
        x - n
    } else {
        x
    }
}

/// The place from which the first `q` walks through the orderings of the
/// first `m` items, with the exchanges between and after them, bring the
/// item that is then at place `j`.
pub open spec fn block_source(m: int, q: int, j: int) -> int {
    if j > m || q == 0 {
        j
    } else if m % 2 == 0 {
        cycle(m, wrap(cycle_index(m, j) + q, m + 1))
    } else if m == 1 {
        1 - j
    } else if j == 0 {
        if q % 2 == 1 {
            m
        } else {
            0
        }
    } else if j == m - 1 {
        if q == m {
            m - 2
        } else if q % 2 == 1 {
            0
        } else {
            m
        }
    } else if j == m {
        if q == 1 {
            m - 1
        } else if q == m {
            0
        } else {
            q - 1
        }
    } else if j == 1 {
        if q >= 2 {
            m - 1
        } else {
            1
        }
    } else if j <= q - 1 {
        j - 1
    } else {
        j
    }
}

/// The number of walks through the orderings of the first `m` items after
/// which the item from place `j` stands at place `m`.
pub open spec fn block_with(m: int, j: int) -> int {
    if m % 2 == 0 {
        cycle_index(m, j)
    } else if m == 1 {
        1 - j
    } else if j == m {
        0
    } else if j == m - 1 {
        1
    } else if j == 0 {
        m
    } else {
        j + 1
    }
}

/// Every item of the first `m + 1` places comes to stand at place `m`
/// after some number of walks, and after no two numbers of walks the same item.
pub proof fn lemma_block_with(m: int, j: int)
    requires
        m >= 1,
        0 <= j <= m,
    ensures
        0 <= block_with(m, j) <= m,
        block_source(m, block_with(m, j), m) == j,
{
}

/// After different numbers of walks, items from different places stand at place `m`.
pub proof fn lemma_block_source_differs(m: int, p: int, q: int)
    requires
        m >= 1,
        0 <= p < q <= m,
    ensures
        block_source(m, p, m) != block_source(m, q, m),
        0 <= block_source(m, p, m) <= m,
        0 <= block_source(m, q, m) <= m,
{
}

/// What a whole walk through the orderings of the first `m` items does to
/// an arrangement.
pub proof fn lemma_end_form<T>(s: Seq<T>, m: nat)
    requires
        1 <= m <= s.len(),
    ensures
        arranged(s, (factorial(m) - 1) as nat).len() == s.len(),
        forall|j: int|
            0 <= j < s.len() ==> 0 <= end_source(m as int, j) < s.len() && #[trigger] arranged(
                s,
                (factorial(m) - 1) as nat,
            )[j] == s[end_source(m as int, j)],
    decreases m, 0nat, 0nat,
{
    if m == 1 {
        assert(factorial(1) == 1 * factorial(0));
    } else {
        let n = (m - 1) as nat;
        lemma_factorial_step(n);
        let f = factorial(n);
        assert(factorial(m) - 1 == n * f + (f - 1)) by (nonlinear_arith)
            requires
                factorial(m) == (n + 1) * f,
        ;
        let start = arranged(s, n * f);
        lemma_arranged_split(s, n, n, (f - 1) as nat);
        lemma_block_form(s, n, n);
        lemma_end_form(start, n);
        let end = arranged(start, (f - 1) as nat);
        assert(end == arranged(s, (factorial(m) - 1) as nat));
        assert forall|j: int| 0 <= j < s.len() implies 0 <= end_source(m as int, j) < s.len()
            && #[trigger] end[j] == s[end_source(m as int, j)] by {
            let via = end_source(n as int, j);
            assert(end[j] == start[via]);
            assert(start[via] == s[block_source(n as int, n as int, via)]);
            assert(block_source(n as int, n as int, via) == end_source(m as int, j));
        }
    }
}

/// What `q` walks through the orderings of the first `m` items, with the
/// exchanges between and after them, do to an arrangement.
pub proof fn lemma_block_form<T>(s: Seq<T>, m: nat, q: nat)
    requires
        1 <= m < s.len(),
        q <= m,
    ensures
        arranged(s, q * factorial(m)).len() == s.len(),
        forall|j: int|
            0 <= j < s.len() ==> 0 <= block_source(m as int, q as int, j) < s.len()
                && #[trigger] arranged(s, q * factorial(m))[j] == s[block_source(
                m as int,
                q as int,
                j,
            )],
    decreases m, 1nat, q,
{
    let f = factorial(m);
    lemma_factorial_step(m);
    if q == 0 {
        assert(0 * f == 0) by (nonlinear_arith);
    } else {
        let p = (q - 1) as nat;
        let k = q * f;
        assert(k - 1 == p * f + (f - 1) && k >= 1) by (nonlinear_arith)
            requires
                k == q * f,
                p == q - 1,
                f >= 1,
        ;
        let start = arranged(s, p * f);
        lemma_arranged_split(s, p, m, (f - 1) as nat);
        lemma_block_form(s, m, p);
        lemma_end_form(start, m);
        let end = arranged(start, (f - 1) as nat);
        assert(end == arranged(s, (k - 1) as nat));
        lemma_transposition_block(q, m);
        let x: int = if m % 2 == 0 {
            0
        } else {
            p as int
        };
        assert(transposition(k) == (x as nat, m));
        assert(arranged(s, k) == swapped(end, x, m as int));
        lemma_swapped(end, x, m as int);
        assert forall|j: int| 0 <= j < s.len() implies 0 <= block_source(m as int, q as int, j)
            < s.len() && #[trigger] arranged(s, k)[j] == s[block_source(m as int, q as int, j)] by {
            let from: int = if j == x {
                m as int
            } else if j == m {
                x
            } else {
                j
            };
            assert(arranged(s, k)[j] == end[from]);
            let via = end_source(m as int, from);
            assert(end[from] == start[via]);
            assert(start[via] == s[block_source(m as int, p as int, via)]);
            assert(block_source(m as int, p as int, via) == block_source(m as int, q as int, j));
        }
    }
}

/// Two arrangements of the same items that agree from place `m` on hold
/// the same items in their first `m` places.
pub proof fn lemma_prefix_items<T>(s: Seq<T>, t: Seq<T>, m: nat)
    requires
        m <= s.len(),
        s.len() == t.len(),
        forall|j: int| m <= j < s.len() ==> s[j] == t[j],
        s.to_multiset() == t.to_multiset(),
    ensures
        s.take(m as int).to_multiset() == t.take(m as int).to_multiset(),
{
    broadcast use vstd::multiset::group_multiset_axioms;

    let rest = s.skip(m as int);
    assert(t.skip(m as int) =~= rest);
    assert(s =~= s.take(m as int) + rest);
    assert(t =~= t.take(m as int) + rest);
    vstd::seq_lib::lemma_multiset_commutative(s.take(m as int), rest);
    vstd::seq_lib::lemma_multiset_commutative(t.take(m as int), rest);
    let a = s.take(m as int).to_multiset();
    let b = t.take(m as int).to_multiset();
    let c = rest.to_multiset();
    assert(a.add(c) == b.add(c));
    assert forall|x: T| a.count(x) == b.count(x) by {
        assert(a.add(c).count(x) == a.count(x) + c.count(x));
        assert(b.add(c).count(x) == b.count(x) + c.count(x));
    }
    assert(a =~= b);
}

/// A step before step `(n + 1) * f` is step `r` of walk `q`, where each
/// walk has `f` steps.
pub proof fn lemma_step_in_walk(k: nat, f: nat, n: nat) -> (at: (nat, nat))
    requires
        f >= 1,
        k < (n + 1) * f,
    ensures
        k == at.0 * f + at.1,
        at.0 <= n,
        at.1 < f,
{
    let q = k / f;
    let r = k % f;
    assert(k == q * f + r && r < f && q <= n) by (nonlinear_arith)
        requires
            q == k / f,
            r == k % f,
            f >= 1,
            k < (n + 1) * f,
    ;
    (q, r)
}

/// Every arrangement of the items of `s` that agrees with `s` from place
/// `m` on is reached by a step before step `m!`.
pub proof fn lemma_cover<T>(s: Seq<T>, t: Seq<T>, m: nat) -> (k: nat)
    requires
        m <= s.len(),
        s.len() == t.len(),
        forall|j: int| m <= j < s.len() ==> s[j] == t[j],
        s.to_multiset() == t.to_multiset(),
    ensures
        k < factorial(m),
        arranged(s, k) == t,
    decreases m,
{
    lemma_factorial_positive(m);
    if m == 0 {
        assert(s =~= t);
        0
    } else {
        let n = (m - 1) as nat;
        lemma_prefix_items(s, t, m);
        vstd::seq_lib::to_multiset_contains(t.take(m as int), t[n as int]);
        vstd::seq_lib::to_multiset_contains(s.take(m as int), t[n as int]);
        assert(t.take(m as int)[n as int] == t[n as int]);
        assert(t.take(m as int).contains(t[n as int]));
        assert(s.take(m as int).contains(t[n as int]));
        let j = choose|j: int| 0 <= j < m && s.take(m as int)[j] == t[n as int];
        assert(s[j] == t[n as int]);
        if n == 0 {
            assert(s =~= t);
            0
        } else {
            let f = factorial(n);
            lemma_factorial_step(n);
            let q = block_with(n as int, j) as nat;
            lemma_block_with(n as int, j);
            lemma_block_form(s, n, q);
            let start = arranged(s, q * f);
            assert(q * f + f <= factorial(m)) by (nonlinear_arith)
                requires
                    q <= n,
                    factorial(m) == (n + 1) * f,
                    f >= 1,
            ;
            lemma_arranged_local(s, m, q * f);
            assert(start[n as int] == s[block_source(n as int, q as int, n as int)]);
            let r = lemma_cover(start, t, n);
            lemma_arranged_split(s, q, n, r);
            q * f + r
        }
    }
}

/// Two different steps before step `m!` reach different arrangements,
/// where no item occurs twice.
pub proof fn lemma_distinct<T>(s: Seq<T>, m: nat, j: nat, k: nat)
    requires
        m <= s.len(),
        s.no_duplicates(),
        j < k < factorial(m),
    ensures
        arranged(s, j) != arranged(s, k),
    decreases m,
{
    if m <= 1 {
        assert(factorial(1) == 1 * factorial(0));
    } else {
        let n = (m - 1) as nat;
        let f = factorial(n);
        lemma_factorial_step(n);
        let (qj, rj) = lemma_step_in_walk(j, f, n);
        let (qk, rk) = lemma_step_in_walk(k, f, n);
        assert(qj <= qk) by (nonlinear_arith)
            requires
                j == qj * f + rj,
                k == qk * f + rk,
                rj < f,
                rk < f,
                j < k,
        ;
        let start_j = arranged(s, qj * f);
        let start_k = arranged(s, qk * f);
        assert(qj * f < factorial(m) && qk * f < factorial(m)) by (nonlinear_arith)
            requires
                qj <= n,
                qk <= n,
                factorial(m) == (n + 1) * f,
                f >= 1,
        ;
        lemma_arranged_local(s, m, qj * f);
        lemma_arranged_local(s, m, qk * f);
        lemma_arranged_split(s, qj, n, rj);
        lemma_arranged_split(s, qk, n, rk);
        if qj == qk {
            lemma_distinct(start_j, n, rj, rk);
        } else {
            lemma_arranged_local(start_j, n, rj);
            lemma_arranged_local(start_k, n, rk);
            lemma_block_form(s, n, qj);
            lemma_block_form(s, n, qk);
            lemma_block_source_differs(n as int, qj as int, qk as int);
            let from_j = block_source(n as int, qj as int, n as int);
            let from_k = block_source(n as int, qk as int, n as int);
            assert(j == qj * f + rj && k == qk * f + rk);
            assert(arranged(s, j) == arranged(start_j, rj));
            assert(arranged(s, k) == arranged(start_k, rk));
            assert(arranged(start_j, rj)[n as int] == start_j[n as int]);
            assert(arranged(start_k, rk)[n as int] == start_k[n as int]);
            assert(start_j[n as int] == s[from_j]);
            assert(start_k[n as int] == s[from_k]);
            assert(s[from_j] != s[from_k]);
        }
    }
}

/// The walk starts at the arrangement that it is given: its first step
/// exchanges nothing.
pub proof fn lemma_orderings_start<T>(s: Seq<T>)
    ensures
        transposition(0) == (0nat, 0nat),
        arranged(s, 0) == s,
{
}

/// Every step of the walk reaches an arrangement of the same items.
pub proof fn lemma_orderings_keep_items<T>(s: Seq<T>, k: nat)
    requires
        k < factorial(s.len()),
    ensures
        arranged(s, k).len() == s.len(),
        arranged(s, k).to_multiset() == s.to_multiset(),
{
    lemma_arranged_local(s, s.len(), k);
}

/// No ordering is left out: every arrangement `t` of the items of `s` is
/// reached by one of the `n!` steps of the walk, `n` being the number of items.
pub proof fn lemma_orderings_complete<T>(s: Seq<T>, t: Seq<T>) -> (k: nat)
    requires
        s.to_multiset() == t.to_multiset(),
    ensures
        k < factorial(s.len()),
        arranged(s, k) == t,
{
    vstd::seq_lib::to_multiset_len(s);
    vstd::seq_lib::to_multiset_len(t);
    lemma_cover(s, t, s.len())
}

/// No ordering comes twice: where no item occurs twice, different steps of
/// the walk reach different arrangements.
pub proof fn lemma_orderings_distinct<T>(s: Seq<T>, j: nat, k: nat)
    requires
        s.no_duplicates(),
        j < factorial(s.len()),
        k < factorial(s.len()),
        j != k,
    ensures
        arranged(s, j) != arranged(s, k),
{
    if j < k {
        lemma_distinct(s, s.len(), j, k);
    } else {
        lemma_distinct(s, s.len(), k, j);
    }
}

} // verus!
