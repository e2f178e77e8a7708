//! A generator of all orderings of a sequence, one exchange at a time.
//!
//! The generator hands out pairs of places. Exchanging the items at each
//! pair in turn, starting from any arrangement, walks through every ordering
//! of the sequence once.
use vstd::prelude::*;

verus! {

/// The product of the whole numbers from one to `n`.
pub open spec fn factorial(n: nat) -> nat
    decreases n,
{
    if n == 0 {
        1
    } else {
        n * factorial((n - 1) as nat)
    }
}

/// The pair of places exchanged at step `k`, found from level `i` upward,
/// where `k` counts the steps in units of the steps that the levels below `i`
/// take together.
///
/// A step that is no multiple of `i + 1` belongs to level `i`: it exchanges
/// place `i` with place 0 where `i` is even, and else with the place that
/// counts the exchanges made at this level so far. Every other step belongs
/// to a higher level.
pub open spec fn transposition_from(k: nat, i: nat) -> (nat, nat)
    decreases k,
{
    if k == 0 || i == 0 {
        (0, 0)
    } else if k % (i + 1) != 0 {
        (
            if i % 2 == 0 {
                0
            } else {
                ((k % (i + 1)) - 1) as nat
            },
            i,
        )
    } else {
        proof {
            assert(k / (i + 1) < k) by (nonlinear_arith)
                requires
                    k > 0,
                    i > 0,
            ;
        }
        transposition_from(k / (i + 1), i + 1)
    }
}

/// The pair of places exchanged at step `k`. Step 0 exchanges nothing.
pub open spec fn transposition(k: nat) -> (nat, nat) {
    transposition_from(k, 1)
}

/// The sequence `s` with the items at places `a` and `b` exchanged.
pub open spec fn swapped<T>(s: Seq<T>, a: int, b: int) -> Seq<T> {
    s.update(a, s[b]).update(b, s[a])
}

/// The arrangement that `s` is in after the steps up to and with step `k`.
pub open spec fn arranged<T>(s: Seq<T>, k: nat) -> Seq<T>
    decreases k,
{
    if k == 0 {
        s
    } else {
        let pair = transposition(k);
        swapped(arranged(s, (k - 1) as nat), pair.0 as int, pair.1 as int)
    }
}

/// A generator of the exchanges that lead through all orderings of `len` items.
pub struct Perms {
    c: Vec<usize>,
    i: usize,
    first_iter: bool,
    len: usize,
}

/// The counters from place `from` on, read as one number: each counter is a
/// digit, and one count at place `j + 1` is worth `j + 1` counts at place `j`.
spec fn digits(c: Seq<usize>, from: nat) -> nat
    decreases c.len() - from,
{
    if from >= c.len() {
        0
    } else {
        c[from as int] as nat + (from + 1) * digits(c, from + 1)
    }
}

/// The product of the whole numbers above `low` up to `high`.
pub open spec fn rising(low: nat, high: nat) -> nat
    decreases high - low,
{
    if low >= high {
        1
    } else {
        (low + 1) * rising(low + 1, high)
    }
}

/// A factorial is never zero.
pub proof fn lemma_factorial_positive(n: nat)
    ensures
        factorial(n) > 0,
    decreases n,
{
    if n > 0 {
        lemma_factorial_positive((n - 1) as nat);
        assert(n * factorial((n - 1) as nat) > 0) by (nonlinear_arith)
            requires
                n > 0,
                factorial((n - 1) as nat) > 0,
        ;
    }
}

/// A rising product is never zero.
pub proof fn lemma_rising_positive(low: nat, high: nat)
    ensures
        rising(low, high) > 0,
    decreases high - low,
{
    if low < high {
        lemma_rising_positive(low + 1, high);
        assert((low + 1) * rising(low + 1, high) > 0) by (nonlinear_arith)
            requires
                rising(low + 1, high) > 0,
        ;
    }
}

/// A factorial is a lower factorial times the rising product between the two.
pub proof fn lemma_factorial_rising(low: nat, high: nat)
    requires
        low <= high,
    ensures
        factorial(low) * rising(low, high) == factorial(high),
    decreases high - low,
{
    if low < high {
        lemma_factorial_rising(low + 1, high);
        assert(factorial(low + 1) == (low + 1) * factorial(low));
        assert(factorial(low) * ((low + 1) * rising(low + 1, high)) == ((low + 1) * factorial(low))
            * rising(low + 1, high)) by (nonlinear_arith);
    } else {
        assert(factorial(low) * 1 == factorial(low)) by (nonlinear_arith);
    }
}

/// Counters that are all zero from `low` up to `high` only scale the number
/// that the counters from `high` on make.
proof fn lemma_digits_zero(c: Seq<usize>, low: nat, high: nat)
    requires
        low <= high <= c.len(),
        forall|j: int| low <= j < high ==> #[trigger] c[j] == 0,
    ensures
        digits(c, low) == rising(low, high) * digits(c, high),
    decreases high - low,
{
    if low < high {
        lemma_digits_zero(c, low + 1, high);
        assert(c[low as int] == 0);
        assert((low + 1) * (rising(low + 1, high) * digits(c, high)) == ((low + 1) * rising(
            low + 1,
            high,
        )) * digits(c, high)) by (nonlinear_arith);
    } else {
        assert(1 * digits(c, high) == digits(c, high));
    }
}

/// Counters that never exceed their place count fewer steps than there are orderings.
proof fn lemma_digits_bound(c: Seq<usize>, from: nat)
    requires
        from <= c.len(),
        forall|j: int| 0 <= j < c.len() ==> #[trigger] c[j] <= j,
    ensures
        1 + digits(c, from) <= rising(from, c.len()),
    decreases c.len() - from,
{
    if from < c.len() {
        lemma_digits_bound(c, from + 1);
        assert(c[from as int] <= from);
        assert(1 + from + (from + 1) * digits(c, from + 1) <= (from + 1) * rising(
            from + 1,
            c.len(),
        )) by (nonlinear_arith)
            requires
                1 + digits(c, from + 1) <= rising(from + 1, c.len()),
        ;
    }
}

/// A step that is `q` times the steps of all levels from `low` up to `high`
/// is decided at level `high`, as step `q` there.
pub proof fn lemma_transposition_rising(q: nat, low: nat, high: nat)
    requires
        q > 0,
        1 <= low <= high,
    ensures
        transposition_from(q * rising(low, high), low) == transposition_from(q, high),
    decreases high - low,
{
    if low < high {
        let rest = q * rising(low + 1, high);
        let k = q * rising(low, high);
        lemma_rising_positive(low + 1, high);
        assert(rest > 0) by (nonlinear_arith)
            requires
                rest == q * rising(low + 1, high),
                q > 0,
                rising(low + 1, high) > 0,
        ;
        assert(k == rest * (low + 1)) by (nonlinear_arith)
            requires
                k == q * ((low + 1) * rising(low + 1, high)),
                rest == q * rising(low + 1, high),
        ;
        assert(k % (low + 1) == 0 && k / (low + 1) == rest && k > 0) by (nonlinear_arith)
            requires
                k == rest * (low + 1),
                rest > 0,
        ;
        lemma_transposition_rising(q, low + 1, high);
    } else {
        assert(q * 1 == q);
    }
}

impl Perms {
    /// Whether the generator is in a state that `new` and `next` lead to.
    pub closed spec fn wf(&self) -> bool {
        &&& self.c@.len() == self.len
        &&& self.i <= self.len || self.i <= 1
        &&& forall|j: int| 0 <= j < self.c@.len() ==> #[trigger] self.c@[j] <= j
        &&& forall|j: int| 0 <= j < self.c@.len() && j < self.i ==> #[trigger] self.c@[j] == 0
        &&& self.first_iter ==> self.i == 0 && forall|j: int|
            0 <= j < self.c@.len() ==> #[trigger] self.c@[j] == 0
    }

    /// The number of items whose orderings the generator walks through.
    pub closed spec fn spec_len(&self) -> nat {
        self.len as nat
    }

    /// How many pairs the generator has handed out.
    pub closed spec fn emitted(&self) -> nat {
        if self.first_iter {
            0
        } else {
            factorial(self.i as nat) * (1 + digits(self.c@, self.i as nat))
        }
    }

    /// A generator for the orderings of `len` items, which has handed out nothing yet.
    pub fn new(len: usize) -> (r: Perms)
        ensures
            r.wf(),
            r.spec_len() == len,
            r.emitted() == 0,
            r.emitted() < factorial(r.spec_len()),
    {
        proof {
            lemma_factorial_positive(len as nat);
        }
        Perms { c: vec![0; len], i: 0, first_iter: true, len }
    }

    /// The number of items whose orderings the generator walks through.
    pub fn len(&self) -> (n: usize)
        ensures
            n == self.spec_len(),
    {
        self.len
    }

    /// A generator never hands out more pairs than there are orderings.
    proof fn emitted_bound(&self)
        requires
            self.wf(),
        ensures
            self.emitted() <= factorial(self.spec_len()),
    {
        lemma_factorial_positive(self.len as nat);
        if !self.first_iter {
            let i = self.i as nat;
            if i <= self.len {
                lemma_digits_bound(self.c@, i);
                lemma_factorial_rising(i, self.len as nat);
                assert(factorial(i) * (1 + digits(self.c@, i)) <= factorial(i) * rising(
                    i,
                    self.len as nat,
                )) by (nonlinear_arith)
                    requires
                        1 + digits(self.c@, i) <= rising(i, self.len as nat),
                ;
            } else {
                assert(factorial(1) == 1 * factorial(0));
                assert(1 * (1 + 0) == 1) by (nonlinear_arith);
            }
        }
    }

    /// The next pair of places to exchange, or `None` once every ordering has been reached.
    ///
    /// The first pair is `(0, 0)`, which leaves the first ordering as it is.
    /// Of every later pair the second place is the greater one.
    pub fn next(&mut self) -> (r: Option<(usize, usize)>)
        requires
            old(self).wf(),
        ensures
            final(self).wf(),
            final(self).spec_len() == old(self).spec_len(),
            final(self).emitted() <= factorial(final(self).spec_len()),
            old(self).emitted() < factorial(old(self).spec_len()) ==> r.is_some() && (
                r.unwrap().0 as nat,
                r.unwrap().1 as nat,
            ) == transposition(old(self).emitted()) && final(self).emitted() == old(self).emitted()
                + 1,
            old(self).emitted() >= factorial(old(self).spec_len()) ==> r.is_none()
                && final(self).emitted() == old(self).emitted(),
            r matches Some(p) ==> (p.0 < p.1 < old(self).spec_len()) || (p.0 == 0 && p.1 == 0
                && old(self).emitted() == 0),
    {
        proof {
            self.emitted_bound();
            lemma_factorial_positive(self.len as nat);
        }
        if self.first_iter {
            self.first_iter = false;
            self.i += 1;
            proof {
                lemma_digits_zero(self.c@, 0, self.c@.len());
                if self.c@.len() >= 1 {
                    lemma_digits_zero(self.c@, 1, self.c@.len());
                }
                assert(factorial(1) == 1 * factorial(0));
                assert(1 * (1 + 0) == 1) by (nonlinear_arith);
            }
            return Some((0, 0));
        }
        let ghost before = self.emitted();
        while self.i < self.len
            invariant
                self.wf(),
                !self.first_iter,
                self.len == old(self).len,
                before == old(self).emitted(),
                before == factorial(self.i as nat) * (1 + digits(self.c@, self.i as nat)),
                before <= factorial(self.len as nat),
            decreases self.len - self.i,
        {
            let i = self.i;
            let count = self.c[i];
            let ghost higher = digits(self.c@, (i + 1) as nat);
            assert(digits(self.c@, i as nat) == count + (i + 1) * higher);
            if count < i {
                let pair = if i % 2 == 0 {
                    (0, i)
                } else {
                    (count, i)
                };
                proof {
                    // This step is step `q` of level `i`, and `q` is no multiple of `i + 1`.
                    let q = (1 + count + (i + 1) * higher) as nat;
                    assert(i >= 1);
                    lemma_factorial_rising(1, i as nat);
                    assert(factorial(1) == 1 * factorial(0));
                    assert(factorial(i as nat) == rising(1, i as nat)) by (nonlinear_arith)
                        requires
                            factorial(1) * rising(1, i as nat) == factorial(i as nat),
                            factorial(1) == 1,
                    ;
                    assert(before == q * rising(1, i as nat)) by (nonlinear_arith)
                        requires
                            before == factorial(i as nat) * (1 + (count + (i + 1) * higher)),
                            factorial(i as nat) == rising(1, i as nat),
                            q == 1 + count + (i + 1) * higher,
                    ;
                    lemma_transposition_rising(q, 1, i as nat);
                    assert(q % ((i + 1) as nat) == 1 + count && q > 0) by (nonlinear_arith)
                        requires
                            q == 1 + count + (i + 1) * higher,
                            0 <= count < i,
                            0 <= higher,
                    ;
                    assert(transposition(before) == transposition_from(q, i as nat));
                    // One more level counts one more step in all.
                    lemma_digits_bound(self.c@, i as nat);
                }
                let ghost old_c = self.c@;
                self.c.set(i, count + 1);
                self.i = 0;
                proof {
                    let c = self.c@;
                    assert(digits(c, (i + 1) as nat) == higher) by {
                        lemma_digits_from(old_c, c, (i + 1) as nat);
                    }
                    assert(digits(c, i as nat) == count + 1 + (i + 1) * higher);
                    lemma_digits_zero(c, 0, i as nat);
                    lemma_factorial_rising(0, i as nat);
                    assert(factorial(0) * (1 + digits(c, 0)) == before + 1) by (nonlinear_arith)
                        requires
                            factorial(0) == 1,
                            digits(c, 0) == rising(0, i as nat) * digits(c, i as nat),
                            factorial(0) * rising(0, i as nat) == factorial(i as nat),
                            digits(c, i as nat) == count + 1 + (i + 1) * higher,
                            before == factorial(i as nat) * (1 + (count + (i + 1) * higher)),
                    ;
                    // Not every counter was at its limit, so an ordering was still to come.
                    self.emitted_bound();
                }
                return Some(pair);
            } else {
                let ghost old_c = self.c@;
                self.c.set(i, 0);
                self.i += 1;
                proof {
                    let c = self.c@;
                    assert(digits(c, (i + 1) as nat) == higher) by {
                        lemma_digits_from(old_c, c, (i + 1) as nat);
                    }
                    assert(factorial((i + 1) as nat) == (i + 1) * factorial(i as nat));
                    assert(factorial((i + 1) as nat) * (1 + higher) == factorial(i as nat) * (1 + (
                    i + (i + 1) * higher))) by (nonlinear_arith)
                        requires
                            factorial((i + 1) as nat) == (i + 1) * factorial(i as nat),
                    ;
                }
            }
        }
        proof {
            assert(digits(self.c@, self.i as nat) == 0);
            if self.i > self.len {
                assert(factorial(1) == 1 * factorial(0));
            }
            assert(before == factorial(self.len as nat)) by (nonlinear_arith)
                requires
                    before == factorial(self.i as nat) * (1 + 0),
                    factorial(self.i as nat) == factorial(self.len as nat),
            ;
        }
        None
    }
}

/// Counters that agree from `from` on make the same number from there.
proof fn lemma_digits_from(a: Seq<usize>, b: Seq<usize>, from: nat)
    requires
        a.len() == b.len(),
        forall|j: int| from <= j < a.len() ==> a[j] == b[j],
    ensures
        digits(a, from) == digits(b, from),
    decreases a.len() - from,
{
    if from < a.len() {
        lemma_digits_from(a, b, from + 1);
    }
}

} // verus!
