//! Questions about one attacker and one defender: how many attacks a
//! defender withstands, and at what health an attack is decisive.
//!
//! These look at the attack alone: tentacles, retaliation and halving play no part.
use vstd::prelude::*;
use crate::combat::health_of;
use crate::damage::{calculate_attacker_damage, spec_attacker_damage, Ratio, MAX_POINTS};
use crate::unit::{Unit, POINT};

verus! {

/// What one attack deals to a defender that has `hp` health left.
pub open spec fn attack_on(attacker: Unit, defender: Unit, hp: u32) -> int {
    spec_attacker_damage(
        attacker.attack,
        defender.defense,
        health_of(attacker),
        Ratio { hp, max_hp: defender.max_hp },
        defender.defense_bonus,
    )
}

/// What one attack deals to the defender where the attacker has `hp` health left.
pub open spec fn attack_with(attacker: Unit, defender: Unit, hp: u32) -> int {
    spec_attacker_damage(
        attacker.attack,
        defender.defense,
        Ratio { hp, max_hp: attacker.max_hp },
        health_of(defender),
        defender.defense_bonus,
    )
}

/// The defender after one attack: its health is less by the damage, but
/// not less than nothing, and the attacker's effects are applied to it.
pub open spec fn struck(attacker: Unit, defender: Unit) -> Unit {
    let damage = attack_on(attacker, defender, defender.current_hp);
    (Unit {
        current_hp: if damage < defender.current_hp {
            (defender.current_hp - damage) as u32
        } else {
            0
        },
        ..defender
    }).spec_apply(attacker.trait_effects)
}

/// An attack deals whole points, and no more than the formula can give.
pub proof fn lemma_attack_on(attacker: Unit, defender: Unit, hp: u32)
    ensures
        0 <= attack_on(attacker, defender, hp) <= MAX_POINTS * POINT,
        attack_on(attacker, defender, hp) % 10 == 0,
{
    let target = Ratio { hp, max_hp: defender.max_hp };
    let a = crate::damage::attack_weight(attacker.attack as int, health_of(attacker), target);
    let d = crate::damage::defense_weight(
        defender.defense as int,
        defender.defense_bonus as int,
        health_of(attacker),
        target,
    );
    assert(0 <= a) by (nonlinear_arith)
        requires
            a == 10 * attacker.attack * attacker.current_hp * defender.max_hp,
            0 <= attacker.attack,
            0 <= attacker.current_hp,
            0 <= defender.max_hp,
    ;
    assert(0 <= d) by (nonlinear_arith)
        requires
            d == defender.defense * defender.defense_bonus * hp * attacker.max_hp,
            0 <= defender.defense,
            0 <= defender.defense_bonus,
            0 <= hp,
            0 <= attacker.max_hp,
    ;
    crate::damage::lemma_struck_points_bound(a, a + d, attacker.attack as int);
}

/// An attack either leaves the defender as it was, or takes health from it,
/// or adds to its effects.
pub proof fn lemma_struck(attacker: Unit, defender: Unit)
    requires
        defender.wf(),
    ensures
        struck(attacker, defender).wf(),
        struck(attacker, defender).current_hp <= defender.current_hp,
        struck(attacker, defender).status_effects == defender.status_effects.union(
            attacker.trait_effects,
        ),
        struck(attacker, defender) == defender || struck(attacker, defender).current_hp
            < defender.current_hp || struck(attacker, defender).status_effects.count()
            > defender.status_effects.count(),
        struck(attacker, defender).status_effects == defender.status_effects && struck(
            attacker,
            defender,
        ).current_hp == defender.current_hp ==> struck(attacker, defender) == defender,
        struck(attacker, defender).status_effects.count() <= 10,
{
    lemma_attack_on(attacker, defender, defender.current_hp);
    defender.status_effects.lemma_union_count(attacker.trait_effects);
}

/// How many attacks it takes until a well-formed defender has no health
/// left, or `None` where no number of attacks brings it there: an attack
/// that leaves the defender just as it was will do so for ever.
pub open spec fn attacks_needed(attacker: Unit, defender: Unit) -> Option<nat>
    decreases defender.current_hp, 10 - defender.status_effects.count(),
    when defender.wf()
{
    if defender.current_hp == 0 {
        Some(0)
    } else {
        let next = struck(attacker, defender);
        if next == defender {
            None
        } else {
            proof {
                lemma_struck(attacker, defender);
            }
            match attacks_needed(attacker, next) {
                Some(n) => Some(n + 1),
                None => None,
            }
        }
    }
}

/// One more attack: what it does to the defender and to the count of attacks needed.
pub proof fn lemma_attacks_needed(attacker: Unit, defender: Unit)
    requires
        defender.wf(),
        defender.current_hp > 0,
    ensures
        ({
            let next = struck(attacker, defender);
            &&& next.wf()
            &&& next.status_effects.union(attacker.trait_effects) == next.status_effects
            &&& next == defender ==> attacks_needed(attacker, defender).is_none()
            &&& next != defender ==> {
                &&& attacks_needed(attacker, defender) == match attacks_needed(attacker, next) {
                    Some(n) => Some(n + 1),
                    None => None,
                }
                &&& next.current_hp == 0 || next.current_hp + 10 <= defender.current_hp || (
                next.current_hp == defender.current_hp && next.status_effects
                    != defender.status_effects)
                &&& next.current_hp < defender.current_hp || (next.current_hp
                    == defender.current_hp && next.status_effects.count()
                    > defender.status_effects.count())
                &&& next.status_effects.count() <= 10
            }
        }),
{
    lemma_struck(attacker, defender);
    lemma_attack_on(attacker, defender, defender.current_hp);
    defender.status_effects.lemma_union_count(attacker.trait_effects);
}

/// One attack on the defender.
fn strike(attacker: &Unit, defender: &Unit) -> (next: Unit)
    requires
        attacker.wf(),
        defender.wf(),
    ensures
        next == struck(*attacker, *defender),
{
    let damage = calculate_attacker_damage(
        attacker.attack,
        defender.defense,
        Ratio { hp: attacker.current_hp, max_hp: attacker.max_hp },
        Ratio { hp: defender.current_hp, max_hp: defender.max_hp },
        defender.defense_bonus,
    );
    let mut next = *defender;
    next.current_hp = if damage < defender.current_hp {
        defender.current_hp - damage
    } else {
        0
    };
    next.apply_status_effects(attacker.trait_effects);
    next
}

/// Counts the attacks that it takes until the defender has no health left.
/// Returns `None` where the attacks never get there.
pub fn bulk(attacker: &Unit, defender: Unit) -> (r: Option<u32>)
    requires
        attacker.wf(),
        defender.wf(),
    ensures
        match attacks_needed(*attacker, defender) {
            Some(n) => r == Some(n as u32) && n <= u32::MAX,
            None => r.is_none(),
        },
{
    let mut target = defender;
    let mut n_attacks: u32 = 0;
    while target.current_hp > 0
        invariant
            attacker.wf(),
            target.wf(),
            defender.wf(),
            n_attacks == 0 ==> target == defender,
            target.current_hp > 0 ==> 10 * n_attacks + target.current_hp <= defender.current_hp
                + 10,
            10 * n_attacks <= defender.current_hp + 20,
            n_attacks > 0 ==> target.status_effects.union(attacker.trait_effects)
                == target.status_effects,
            match attacks_needed(*attacker, target) {
                Some(m) => attacks_needed(*attacker, defender) == Some(m + n_attacks as nat),
                None => attacks_needed(*attacker, defender).is_none(),
            },
        decreases target.current_hp, 10 - target.status_effects.count(),
    {
        let next = strike(attacker, &target);
        proof {
            lemma_attacks_needed(*attacker, target);
        }
        if next == target {
            return None;
        }
        n_attacks = n_attacks + 1;
        target = next;
    }
    Some(n_attacks)
}

/// What the defender's health comes to when it is `steps` whole points
/// below the maximum: nothing where the maximum is not that much.
pub open spec fn lowered(defender: Unit, steps: nat) -> u32 {
    if defender.max_hp > steps * POINT {
        (defender.max_hp - steps * POINT) as u32
    } else {
        0
    }
}

/// Whether one attack eliminates a defender that has `hp` health left.
pub open spec fn falls_at(attacker: Unit, defender: Unit, hp: u32) -> bool {
    hp <= attack_on(attacker, defender, hp)
}

/// Whether one attack eliminates the defender where the attacker has `hp` health left.
pub open spec fn fells_with(attacker: Unit, defender: Unit, hp: u32) -> bool {
    defender.current_hp <= attack_with(attacker, defender, hp)
}

/// The highest health at which one attack eliminates the defender, among
/// the healths that lie whole points below the defender's maximum. A
/// defender without health is eliminated in any case.
pub fn eliminate_defender(attacker: &Unit, defender: Unit) -> (hp: u32)
    requires
        attacker.wf(),
        defender.wf(),
    ensures
        exists|steps: nat|
            {
                &&& hp == lowered(defender, steps)
                &&& falls_at(*attacker, defender, hp)
                &&& forall|fewer: nat|
                    fewer < steps ==> !falls_at(
                        *attacker,
                        defender,
                        #[trigger] lowered(defender, fewer),
                    )
            },
{
    let mut i: u32 = 0;
    let mut hp: u32 = defender.max_hp;
    loop
        invariant
            attacker.wf(),
            defender.wf(),
            hp == lowered(defender, i as nat),
            hp > 0 ==> i * 10 + hp == defender.max_hp,
            forall|fewer: nat|
                fewer < i ==> !falls_at(*attacker, defender, #[trigger] lowered(defender, fewer)),
        ensures
            hp == lowered(defender, i as nat),
            falls_at(*attacker, defender, hp),
            forall|fewer: nat|
                fewer < i ==> !falls_at(*attacker, defender, #[trigger] lowered(defender, fewer)),
        decreases hp,
    {
        let damage = calculate_attacker_damage(
            attacker.attack,
            defender.defense,
            Ratio { hp: attacker.current_hp, max_hp: attacker.max_hp },
            Ratio { hp, max_hp: defender.max_hp },
            defender.defense_bonus,
        );
        if hp <= damage {
            break ;
        }
        i = i + 1;
        hp = if hp > POINT {
            hp - POINT
        } else {
            0
        };
    }
    hp
}

/// The most health that [`eliminate_attacker`] tries.
pub const MOST_TRIED: u32 = 655_350;

/// The least health, in whole points up to [`MOST_TRIED`], with which one
/// attack eliminates the defender as it stands, or `None` where no such
/// health does. The health may be more than the attacker's maximum.
pub fn eliminate_attacker(attacker: Unit, defender: &Unit) -> (r: Option<u32>)
    requires
        attacker.wf(),
        defender.wf(),
    ensures
        match r {
            Some(hp) => {
                &&& hp <= MOST_TRIED
                &&& hp % POINT == 0
                &&& fells_with(attacker, *defender, hp)
                &&& forall|less: u32|
                    less < hp && less % POINT == 0 ==> !#[trigger] fells_with(
                        attacker,
                        *defender,
                        less,
                    )
            },
            None => forall|hp: u32|
                hp <= MOST_TRIED && hp % POINT == 0 ==> !#[trigger] fells_with(
                    attacker,
                    *defender,
                    hp,
                ),
        },
{
    let mut hp: u32 = 0;
    while hp <= MOST_TRIED
        invariant
            attacker.wf(),
            defender.wf(),
            hp % POINT == 0,
            hp <= MOST_TRIED + POINT,
            forall|less: u32|
                less < hp && less % POINT == 0 ==> !#[trigger] fells_with(
                    attacker,
                    *defender,
                    less,
                ),
        decreases MOST_TRIED + POINT - hp,
    {
        let damage = calculate_attacker_damage(
            attacker.attack,
            defender.defense,
            Ratio { hp, max_hp: attacker.max_hp },
            Ratio { hp: defender.current_hp, max_hp: defender.max_hp },
            defender.defense_bonus,
        );
        if defender.current_hp <= damage {
            return Some(hp);
        }
        hp = hp + POINT;
    }
    None
}

} // verus!
