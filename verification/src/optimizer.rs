//! The search for the order of attack with the best outcome.
//!
//! The search tries every ordering of the attackers against every ordering
//! of the defenders. Both are walked through by exchanges, so that each
//! trial differs from the one before in two places of one roster. The
//! defenders are not put back in their first order between the attackers'
//! orderings: each walk through the defenders' orderings starts where the
//! last one ended.
use vstd::prelude::*;
use crate::combat::{
    batch_log, batch_score, multi_combat_log, multi_combat_score_with_bonus, CombatLog,
};
use crate::orderings::{lemma_orderings_complete, lemma_orderings_keep_items};
use crate::perms::{arranged, factorial, lemma_factorial_positive, transposition, Perms};
use crate::roster::{all_wf, Units};
use crate::unit::Unit;

verus! {

/// The last step of a walk through the orderings of `n` items.
pub open spec fn last_step(n: nat) -> nat {
    (factorial(n) - 1) as nat
}

/// The arrangement of the defenders at the start of round `round`, one
/// round being one walk through all orderings of the defenders.
pub open spec fn round_start(defenders: Seq<Unit>, round: nat) -> Seq<Unit>
    decreases round,
{
    if round == 0 {
        defenders
    } else {
        arranged(round_start(defenders, (round - 1) as nat), last_step(defenders.len()))
    }
}

/// The attackers as they stand in a round.
pub open spec fn trial_attackers(attackers: Seq<Unit>, round: nat) -> Seq<Unit> {
    arranged(attackers, round)
}

/// The defenders as they stand at a step of a round.
pub open spec fn trial_defenders(defenders: Seq<Unit>, round: nat, step: nat) -> Seq<Unit> {
    arranged(round_start(defenders, round), step)
}

/// The score of the trial at a step of a round.
pub open spec fn trial_score(
    attackers: Seq<Unit>,
    defenders: Seq<Unit>,
    kill_bonus: int,
    round: nat,
    step: nat,
) -> int {
    batch_score(
        trial_attackers(attackers, round),
        trial_defenders(defenders, round, step),
        kill_bonus,
    )
}

/// The round and step of the best trial up to and with the given one: the
/// first of those with the highest score.
pub open spec fn leader(
    attackers: Seq<Unit>,
    defenders: Seq<Unit>,
    kill_bonus: int,
    round: nat,
    step: nat,
) -> (nat, nat)
    decreases round, step,
{
    if round == 0 && step == 0 {
        (0, 0)
    } else {
        let before = if step == 0 {
            leader(
                attackers,
                defenders,
                kill_bonus,
                (round - 1) as nat,
                last_step(defenders.len()),
            )
        } else {
            leader(attackers, defenders, kill_bonus, round, (step - 1) as nat)
        };
        if trial_score(attackers, defenders, kill_bonus, round, step) > trial_score(
            attackers,
            defenders,
            kill_bonus,
            before.0,
            before.1,
        ) {
            (round, step)
        } else {
            before
        }
    }
}

/// The round and step of the best trial of the whole search.
pub open spec fn winner(attackers: Seq<Unit>, defenders: Seq<Unit>, kill_bonus: int) -> (nat, nat) {
    leader(
        attackers,
        defenders,
        kill_bonus,
        last_step(attackers.len()),
        last_step(defenders.len()),
    )
}

/// Every round starts from an arrangement of the same defenders.
pub proof fn lemma_round_start_items(defenders: Seq<Unit>, round: nat)
    ensures
        round_start(defenders, round).len() == defenders.len(),
        round_start(defenders, round).to_multiset() == defenders.to_multiset(),
    decreases round,
{
    if round > 0 {
        let before = round_start(defenders, (round - 1) as nat);
        lemma_round_start_items(defenders, (round - 1) as nat);
        lemma_factorial_positive(defenders.len());
        lemma_orderings_keep_items(before, last_step(defenders.len()));
    }
}

/// The leader up to a trial has a score no lower than that trial or any
/// trial before it, and is one of them.
pub proof fn lemma_leader_leads(
    attackers: Seq<Unit>,
    defenders: Seq<Unit>,
    kill_bonus: int,
    round: nat,
    step: nat,
    other_round: nat,
    other_step: nat,
)
    requires
        step <= last_step(defenders.len()),
        other_step <= last_step(defenders.len()),
        other_round < round || (other_round == round && other_step <= step),
    ensures
        ({
            let best = leader(attackers, defenders, kill_bonus, round, step);
            &&& trial_score(attackers, defenders, kill_bonus, best.0, best.1) >= trial_score(
                attackers,
                defenders,
                kill_bonus,
                other_round,
                other_step,
            )
            &&& best.0 <= round
            &&& best.1 <= last_step(defenders.len())
        }),
    decreases round, step,
{
    if round == 0 && step == 0 {
    } else if step == 0 {
        let last = last_step(defenders.len());
        if other_round == round {
            lemma_leader_leads(
                attackers,
                defenders,
                kill_bonus,
                (round - 1) as nat,
                last,
                (round - 1) as nat,
                last,
            );
        } else {
            lemma_leader_leads(
                attackers,
                defenders,
                kill_bonus,
                (round - 1) as nat,
                last,
                other_round,
                other_step,
            );
        }
    } else {
        if other_round == round && other_step == step {
            lemma_leader_leads(
                attackers,
                defenders,
                kill_bonus,
                round,
                (step - 1) as nat,
                round,
                (step - 1) as nat,
            );
        } else {
            lemma_leader_leads(
                attackers,
                defenders,
                kill_bonus,
                round,
                (step - 1) as nat,
                other_round,
                other_step,
            );
        }
    }
}

/// The best trial of the search is the best of all orders: it arranges
/// the same attackers and the same defenders, and no arrangement of them
/// has a higher score.
pub proof fn lemma_winner_is_best(
    attackers: Seq<Unit>,
    defenders: Seq<Unit>,
    kill_bonus: int,
    attackers_order: Seq<Unit>,
    defenders_order: Seq<Unit>,
)
    requires
        attackers_order.to_multiset() == attackers.to_multiset(),
        defenders_order.to_multiset() == defenders.to_multiset(),
    ensures
        ({
            let best = winner(attackers, defenders, kill_bonus);
            &&& trial_score(attackers, defenders, kill_bonus, best.0, best.1) >= batch_score(
                attackers_order,
                defenders_order,
                kill_bonus,
            )
            &&& trial_attackers(attackers, best.0).to_multiset() == attackers.to_multiset()
            &&& trial_defenders(defenders, best.0, best.1).to_multiset()
                == defenders.to_multiset()
        }),
{
    lemma_factorial_positive(attackers.len());
    lemma_factorial_positive(defenders.len());
    let round = lemma_orderings_complete(attackers, attackers_order);
    let start = round_start(defenders, round);
    lemma_round_start_items(defenders, round);
    let step = lemma_orderings_complete(start, defenders_order);
    lemma_leader_leads(
        attackers,
        defenders,
        kill_bonus,
        last_step(attackers.len()),
        last_step(defenders.len()),
        round,
        step,
    );
    let best = winner(attackers, defenders, kill_bonus);
    lemma_orderings_keep_items(attackers, best.0);
    lemma_round_start_items(defenders, best.0);
    lemma_orderings_keep_items(round_start(defenders, best.0), best.1);
}

/// Whether no arrangement of the two rosters has a higher score than the
/// rosters as they are given.
pub open spec fn given_order_is_best(
    attackers: Seq<Unit>,
    defenders: Seq<Unit>,
    kill_bonus: int,
) -> bool {
    forall|a: Seq<Unit>, d: Seq<Unit>|
        a.to_multiset() == attackers.to_multiset() && d.to_multiset() == defenders.to_multiset()
            ==> #[trigger] batch_score(a, d, kill_bonus) <= batch_score(
            attackers,
            defenders,
            kill_bonus,
        )
}

/// Where no arrangement has a higher score than the rosters as they are
/// given, the given order leads from the first trial to the last: a later
/// trial takes the lead only with a higher score.
pub proof fn lemma_given_order_leads(
    attackers: Seq<Unit>,
    defenders: Seq<Unit>,
    kill_bonus: int,
    round: nat,
    step: nat,
)
    requires
        given_order_is_best(attackers, defenders, kill_bonus),
        round <= last_step(attackers.len()),
        step <= last_step(defenders.len()),
    ensures
        leader(attackers, defenders, kill_bonus, round, step) == (0nat, 0nat),
    decreases round, step,
{
    if round == 0 && step == 0 {
    } else {
        lemma_factorial_positive(attackers.len());
        lemma_factorial_positive(defenders.len());
        if step == 0 {
            lemma_given_order_leads(
                attackers,
                defenders,
                kill_bonus,
                (round - 1) as nat,
                last_step(defenders.len()),
            );
        } else {
            lemma_given_order_leads(attackers, defenders, kill_bonus, round, (step - 1) as nat);
        }
        let a = trial_attackers(attackers, round);
        let d = trial_defenders(defenders, round, step);
        lemma_orderings_keep_items(attackers, round);
        lemma_round_start_items(defenders, round);
        lemma_orderings_keep_items(round_start(defenders, round), step);
        assert(batch_score(a, d, kill_bonus) <= batch_score(attackers, defenders, kill_bonus));
        assert(trial_score(attackers, defenders, kill_bonus, 0, 0) == batch_score(
            attackers,
            defenders,
            kill_bonus,
        ));
    }
}

/// The best score is that of the units, not of the order in which they
/// are given: rosters of the same units have the same best score.
pub proof fn lemma_best_score_of_units(
    attackers: Seq<Unit>,
    defenders: Seq<Unit>,
    other_attackers: Seq<Unit>,
    other_defenders: Seq<Unit>,
    kill_bonus: int,
)
    requires
        other_attackers.to_multiset() == attackers.to_multiset(),
        other_defenders.to_multiset() == defenders.to_multiset(),
    ensures
        ({
            let best = winner(attackers, defenders, kill_bonus);
            let other = winner(other_attackers, other_defenders, kill_bonus);
            trial_score(attackers, defenders, kill_bonus, best.0, best.1) == trial_score(
                other_attackers,
                other_defenders,
                kill_bonus,
                other.0,
                other.1,
            )
        }),
{
    let best = winner(attackers, defenders, kill_bonus);
    let other = winner(other_attackers, other_defenders, kill_bonus);
    lemma_winner_is_best(attackers, defenders, kill_bonus, attackers, defenders);
    lemma_winner_is_best(
        other_attackers,
        other_defenders,
        kill_bonus,
        other_attackers,
        other_defenders,
    );
    lemma_winner_is_best(
        attackers,
        defenders,
        kill_bonus,
        trial_attackers(other_attackers, other.0),
        trial_defenders(other_defenders, other.0, other.1),
    );
    lemma_winner_is_best(
        other_attackers,
        other_defenders,
        kill_bonus,
        trial_attackers(attackers, best.0),
        trial_defenders(defenders, best.0, best.1),
    );
}

/// Whether `top_score` and the two rosters are those of the best trial
/// before the given one. Before the first trial the score is lower than any
/// trial's.
spec fn leads_before(
    attackers: Seq<Unit>,
    defenders: Seq<Unit>,
    kill_bonus: int,
    round: nat,
    step: nat,
    top_score: int,
    best_attackers: Seq<Unit>,
    best_defenders: Seq<Unit>,
) -> bool {
    if round == 0 && step == 0 {
        top_score == i64::MIN
    } else {
        let best = if step == 0 {
            leader(
                attackers,
                defenders,
                kill_bonus,
                (round - 1) as nat,
                last_step(defenders.len()),
            )
        } else {
            leader(attackers, defenders, kill_bonus, round, (step - 1) as nat)
        };
        &&& top_score == trial_score(attackers, defenders, kill_bonus, best.0, best.1)
        &&& top_score >= batch_score(attackers, defenders, kill_bonus)
        &&& best_attackers == trial_attackers(attackers, best.0)
        &&& best_defenders == trial_defenders(defenders, best.0, best.1)
    }
}

/// The arrangement that a walk has reached before its step `k`.
spec fn reached<T>(s: Seq<T>, k: nat) -> Seq<T> {
    if k == 0 {
        s
    } else {
        arranged(s, (k - 1) as nat)
    }
}

/// Finds the orders of attackers and defenders with the highest score, no
/// kill bonus counted, and returns that score with the log of the batch in
/// those orders. Of several trials with the highest score the first one
/// wins, and the first trial is that of the rosters as they are given.
pub fn optimized(attackers: Units, defenders: Units) -> (r: (i64, CombatLog))
    requires
        attackers.all_wf(),
        defenders.all_wf(),
    ensures
        ({
            let best = winner(attackers@, defenders@, 0);
            &&& r.0 == trial_score(attackers@, defenders@, 0, best.0, best.1)
            &&& r.1@ == batch_log(
                trial_attackers(attackers@, best.0),
                trial_defenders(defenders@, best.0, best.1),
            )
        }),
        r.0 >= batch_score(attackers@, defenders@, 0),
        forall|a: Seq<Unit>, d: Seq<Unit>|
            a.to_multiset() == attackers@.to_multiset() && d.to_multiset()
                == defenders@.to_multiset() ==> r.0 >= #[trigger] batch_score(a, d, 0),
        exists|a: Seq<Unit>, d: Seq<Unit>|
            a.to_multiset() == attackers@.to_multiset() && d.to_multiset()
                == defenders@.to_multiset() && r.0 == #[trigger] batch_score(a, d, 0) && r.1@
                == batch_log(a, d),
        given_order_is_best(attackers@, defenders@, 0) ==> r.0 == batch_score(
            attackers@,
            defenders@,
            0,
        ) && r.1@ == batch_log(attackers@, defenders@),
{
    optimized_with_bonus(attackers, defenders, 0)
}

/// Finds the orders of attackers and defenders with the highest score,
/// `kill_bonus` counted for every defender eliminated, and returns that
/// score with the log of the batch in those orders.
pub fn optimized_with_bonus(attackers: Units, defenders: Units, kill_bonus: u32) -> (r: (
    i64,
    CombatLog,
))
    requires
        attackers.all_wf(),
        defenders.all_wf(),
    ensures
        ({
            let best = winner(attackers@, defenders@, kill_bonus as int);
            &&& r.0 == trial_score(attackers@, defenders@, kill_bonus as int, best.0, best.1)
            &&& r.1@ == batch_log(
                trial_attackers(attackers@, best.0),
                trial_defenders(defenders@, best.0, best.1),
            )
        }),
        r.0 >= batch_score(attackers@, defenders@, kill_bonus as int),
        forall|a: Seq<Unit>, d: Seq<Unit>|
            a.to_multiset() == attackers@.to_multiset() && d.to_multiset()
                == defenders@.to_multiset() ==> r.0 >= #[trigger] batch_score(
                a,
                d,
                kill_bonus as int,
            ),
        exists|a: Seq<Unit>, d: Seq<Unit>|
            a.to_multiset() == attackers@.to_multiset() && d.to_multiset()
                == defenders@.to_multiset() && r.0 == #[trigger] batch_score(
                a,
                d,
                kill_bonus as int,
            ) && r.1@ == batch_log(a, d),
        given_order_is_best(attackers@, defenders@, kill_bonus as int) ==> r.0 == batch_score(
            attackers@,
            defenders@,
            kill_bonus as int,
        ) && r.1@ == batch_log(attackers@, defenders@),
{
    let (top_score, best_attackers, best_defenders) = best_orders(attackers, defenders, kill_bonus);
    let ghost best_a = best_attackers@;
    let ghost best_d = best_defenders@;
    let log = multi_combat_log(&best_attackers, best_defenders);
    assert(best_a.to_multiset() == attackers@.to_multiset() && best_d.to_multiset()
        == defenders@.to_multiset() && top_score == batch_score(best_a, best_d, kill_bonus as int)
        && log@ == batch_log(best_a, best_d));
    (top_score, log)
}

/// Tries every ordering of the attackers against every ordering of the
/// defenders and returns the highest score, `kill_bonus` counted for every
/// defender eliminated, with the two rosters in the orders that reach it.
/// Of several trials with the highest score the first one wins.
pub fn best_orders(attackers: Units, defenders: Units, kill_bonus: u32) -> (r: (i64, Units, Units))
    requires
        attackers.all_wf(),
        defenders.all_wf(),
    ensures
        ({
            let best = winner(attackers@, defenders@, kill_bonus as int);
            &&& r.0 == trial_score(attackers@, defenders@, kill_bonus as int, best.0, best.1)
            &&& r.1@ == trial_attackers(attackers@, best.0)
            &&& r.2@ == trial_defenders(defenders@, best.0, best.1)
        }),
        r.0 == batch_score(r.1@, r.2@, kill_bonus as int),
        r.0 >= batch_score(attackers@, defenders@, kill_bonus as int),
        r.1@.to_multiset() == attackers@.to_multiset(),
        r.2@.to_multiset() == defenders@.to_multiset(),
        forall|a: Seq<Unit>, d: Seq<Unit>|
            a.to_multiset() == attackers@.to_multiset() && d.to_multiset()
                == defenders@.to_multiset() ==> r.0 >= #[trigger] batch_score(
                a,
                d,
                kill_bonus as int,
            ),
        given_order_is_best(attackers@, defenders@, kill_bonus as int) ==> r.1@ == attackers@
            && r.2@ == defenders@,
        r.1.all_wf(),
        r.2.all_wf(),
{
    let ghost a0 = attackers@;
    let ghost d0 = defenders@;
    let ghost bonus = kill_bonus as int;
    let mut attackers = attackers;
    let mut defenders = defenders;
    let n_defenders = defenders.len();
    let mut top_score = i64::MIN;
    let mut best_attackers = attackers.clone();
    let mut best_defenders = defenders.clone();
    let n_attackers = attackers.len();
    let mut outer = Perms::new(n_attackers);
    let ghost mut round: nat = 0;
    let mut exchange = outer.next();
    while exchange.is_some()
        invariant
            bonus == kill_bonus as int,
            a0.len() <= 12,
            outer.wf(),
            outer.spec_len() == a0.len(),
            n_defenders == d0.len(),
            all_wf(attackers@),
            all_wf(defenders@),
            all_wf(best_attackers@),
            all_wf(best_defenders@),
            attackers@.len() == a0.len(),
            defenders@.len() == d0.len(),
            round <= factorial(a0.len()),
            outer.emitted() <= factorial(a0.len()),
            round < factorial(a0.len()) ==> exchange.is_some() && (
                exchange.unwrap().0 as nat,
                exchange.unwrap().1 as nat,
            ) == transposition(round) && outer.emitted() == round + 1,
            round >= factorial(a0.len()) ==> exchange.is_none(),
            exchange matches Some(p) ==> (p.0 < p.1 < a0.len()) || (p.0 == 0 && p.1 == 0 && round
                == 0),
            attackers@ == reached(a0, round),
            defenders@ == round_start(d0, round),
            leads_before(a0, d0, bonus, round, 0, top_score as int, best_attackers@, best_defenders@),
        decreases factorial(a0.len()) - round,
    {
        let (a, b) = exchange.unwrap();
        if a != b {
            attackers.swap(a, b);
        }
        assert(attackers@ == arranged(a0, round));
        let mut inner = Perms::new(n_defenders);
        let ghost mut step: nat = 0;
        let ghost start = defenders@;
        let mut inner_exchange = inner.next();
        while inner_exchange.is_some()
            invariant
                bonus == kill_bonus as int,
                a0.len() <= 12,
                inner.wf(),
                inner.spec_len() == d0.len(),
                all_wf(attackers@),
                all_wf(defenders@),
                all_wf(best_attackers@),
                all_wf(best_defenders@),
                attackers@.len() == a0.len(),
                defenders@.len() == d0.len(),
                start == round_start(d0, round),
                attackers@ == arranged(a0, round),
                step <= factorial(d0.len()),
                inner.emitted() <= factorial(d0.len()),
                step < factorial(d0.len()) ==> inner_exchange.is_some() && (
                    inner_exchange.unwrap().0 as nat,
                    inner_exchange.unwrap().1 as nat,
                ) == transposition(step) && inner.emitted() == step + 1,
                step >= factorial(d0.len()) ==> inner_exchange.is_none(),
                inner_exchange matches Some(p) ==> (p.0 < p.1 < d0.len()) || (p.0 == 0 && p.1 == 0
                    && step == 0),
                defenders@ == reached(start, step),
                step == factorial(d0.len()) ==> leads_before(
                    a0,
                    d0,
                    bonus,
                    round + 1,
                    0,
                    top_score as int,
                    best_attackers@,
                    best_defenders@,
                ),
                step < factorial(d0.len()) ==> leads_before(
                    a0,
                    d0,
                    bonus,
                    round,
                    step,
                    top_score as int,
                    best_attackers@,
                    best_defenders@,
                ),
            decreases factorial(d0.len()) - step,
        {
            let (c, d) = inner_exchange.unwrap();
            if c != d {
                defenders.swap(c, d);
            }
            assert(defenders@ == arranged(start, step));
            let score = multi_combat_score_with_bonus(&attackers, defenders.clone(), kill_bonus);
            assert(score == trial_score(a0, d0, bonus, round, step));
            if score > top_score {
                top_score = score;
                best_attackers = attackers.clone();
                best_defenders = defenders.clone();
            }
            proof {
                assert(leads_before(
                    a0,
                    d0,
                    bonus,
                    round,
                    step + 1,
                    top_score as int,
                    best_attackers@,
                    best_defenders@,
                ));
                step = step + 1;
            }
            inner_exchange = inner.next();
        }
        proof {
            assert(defenders@ == round_start(d0, round + 1));
            round = round + 1;
        }
        exchange = outer.next();
    }
    proof {
        lemma_factorial_positive(a0.len());
        lemma_factorial_positive(d0.len());
        if given_order_is_best(a0, d0, bonus) {
            lemma_given_order_leads(a0, d0, bonus, last_step(a0.len()), last_step(d0.len()));
        }
        lemma_winner_is_best(a0, d0, bonus, a0, d0);
        assert forall|a: Seq<Unit>, d: Seq<Unit>|
            a.to_multiset() == a0.to_multiset() && d.to_multiset()
                == d0.to_multiset() implies top_score >= #[trigger] batch_score(a, d, bonus) by {
            lemma_winner_is_best(a0, d0, bonus, a, d);
        }
    }
    (top_score, best_attackers, best_defenders)
}

} // verus!
