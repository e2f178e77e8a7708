//! One engagement between an attacker and a defender, and a batch of them.
use vstd::prelude::*;
pub use crate::analysis::{bulk, eliminate_attacker, eliminate_defender};
pub use crate::optimizer::{optimized, optimized_with_bonus};
use crate::damage::{
    Ratio, as_damage, attack_weight, calculate_attacker_damage, calculate_damage, defense_weight,
    spec_attacker_damage, struck_points, MAX_POINTS,
};
use crate::effects::StatusEffects;
use crate::roster::{all_wf, Units};
use crate::unit::{Unit, POINT};

verus! {

/// What one side of an engagement receives.
#[derive(Clone, Copy, Debug, PartialEq, Eq, Structural)]
pub struct UnitResult {
    /// Damage in tenths.
    pub damage: u32,
    pub status_effects: StatusEffects,
}

/// A unit's health as a part of its maximum.
pub open spec fn health_of(unit: Unit) -> Ratio {
    Ratio { hp: unit.current_hp, max_hp: unit.max_hp }
}

/// Whether the defender reaches as far as the attacker does.
pub open spec fn in_range(attacker: Unit, defender: Unit) -> bool {
    defender.range >= attacker.range
}

/// What the defender's tentacles deal to an attacker that comes within their
/// range and has none of its own: what the defender would deal if it were
/// the one attacking.
pub open spec fn tentacle_damage(attacker: Unit, defender: Unit) -> int {
    if defender.tentacles && !attacker.tentacles && in_range(attacker, defender) {
        spec_attacker_damage(
            defender.attack,
            attacker.defense,
            health_of(defender),
            health_of(attacker),
            attacker.defense_bonus,
        )
    } else {
        0
    }
}

/// The health with which the attacker strikes: what the tentacles have left
/// of it, which is nothing where they deal more than it has.
pub open spec fn striking_health(attacker: Unit, defender: Unit) -> Ratio {
    let left = attacker.current_hp - tentacle_damage(attacker, defender);
    Ratio { hp: if left > 0 { left as u32 } else { 0 }, max_hp: attacker.max_hp }
}

/// Whether the engagement's damage is halved: the attacker splashes or explodes.
pub open spec fn halved(attacker: Unit) -> bool {
    attacker.status_effects.splashing || attacker.status_effects.exploding
}

/// The attack force of the engagement, as a weight.
pub open spec fn engaged_attack(attacker: Unit, defender: Unit) -> int {
    attack_weight(attacker.attack as int, striking_health(attacker, defender), health_of(defender))
}

/// The defense force of the engagement, as a weight.
pub open spec fn engaged_defense(attacker: Unit, defender: Unit) -> int {
    defense_weight(
        defender.defense as int,
        defender.defense_bonus as int,
        striking_health(attacker, defender),
        health_of(defender),
    )
}

/// What the attack deals to the defender, in tenths.
pub open spec fn damage_to_defender(attacker: Unit, defender: Unit) -> int {
    let a = engaged_attack(attacker, defender);
    let d = engaged_defense(attacker, defender);
    as_damage(struck_points(a, a + d, attacker.attack as int), halved(attacker))
}

/// What the defender deals back where it retaliates, in tenths.
pub open spec fn retaliation_damage(attacker: Unit, defender: Unit) -> int {
    let a = engaged_attack(attacker, defender);
    let d = engaged_defense(attacker, defender);
    as_damage(struck_points(d, a + d, defender.defense as int), halved(attacker))
}

/// Whether the defender retaliates.
///
/// Two units with tentacles always strike each other, and an attacker that
/// takes retaliation whatever happens does so. Otherwise the defender
/// strikes back only if it reaches the attacker, survives the attack, is of a
/// kind that retaliates and is not frozen, and the attacker neither
/// surprises nor freezes nor converts what it attacks.
pub open spec fn retaliates(attacker: Unit, defender: Unit) -> bool {
    ||| attacker.tentacles && defender.tentacles
    ||| attacker.status_effects.takes_retaliation
    ||| {
        &&& in_range(attacker, defender)
        &&& damage_to_defender(attacker, defender) < defender.current_hp
        &&& defender.retaliates
        &&& !attacker.surprise
        &&& !attacker.trait_effects.frozen
        &&& !attacker.trait_effects.converted
        &&& !defender.status_effects.frozen
    }
}

/// What the attacker receives in all, in tenths: its whole maximum health
/// where it explodes, else what the tentacles dealt and, where the defender
/// retaliates, the retaliation.
pub open spec fn damage_to_attacker(attacker: Unit, defender: Unit) -> int {
    if attacker.status_effects.exploding {
        attacker.max_hp as int
    } else if retaliates(attacker, defender) {
        retaliation_damage(attacker, defender) + tentacle_damage(attacker, defender)
    } else {
        tentacle_damage(attacker, defender)
    }
}

/// The effects that the attacker receives: the defender's, where it retaliates.
pub open spec fn effects_to_attacker(attacker: Unit, defender: Unit) -> StatusEffects {
    if retaliates(attacker, defender) {
        defender.trait_effects
    } else {
        StatusEffects::empty()
    }
}

/// Resolves one engagement: what the attacker receives, then what the
/// defender receives. Neither unit is changed.
pub fn single_combat(attacker: &Unit, defender: &Unit) -> (r: (UnitResult, UnitResult))
    requires
        attacker.wf(),
        defender.wf(),
    ensures
        r.0.damage == damage_to_attacker(*attacker, *defender),
        r.0.status_effects == effects_to_attacker(*attacker, *defender),
        r.1.damage == damage_to_defender(*attacker, *defender),
        r.1.status_effects == attacker.trait_effects,
        attacker.status_effects.exploding ==> r.0.damage == attacker.max_hp,
        r.1.damage <= MAX_POINTS * POINT,
        !attacker.status_effects.exploding ==> r.0.damage <= 2 * MAX_POINTS * POINT,
{
    let mut tentacles: u32 = 0;
    let mut takes_retaliation = false;
    let defender_in_range = defender.range >= attacker.range;
    let attacker_health = Ratio { hp: attacker.current_hp, max_hp: attacker.max_hp };
    let defender_health = Ratio { hp: defender.current_hp, max_hp: defender.max_hp };
    if defender.tentacles {
        if attacker.tentacles {
            takes_retaliation = true;
        } else if defender_in_range {
            tentacles =
            calculate_attacker_damage(
                defender.attack,
                attacker.defense,
                defender_health,
                attacker_health,
                attacker.defense_bonus,
            );
        }
    }
    let striking = Ratio {
        hp: if attacker.current_hp > tentacles {
            attacker.current_hp - tentacles
        } else {
            0
        },
        max_hp: attacker.max_hp,
    };
    let (to_attacker, to_defender) = calculate_damage(
        attacker.attack,
        defender.defense,
        striking,
        defender_health,
        defender.defense_bonus,
        attacker.status_effects.splashing || attacker.status_effects.exploding,
    );
    let effects_to_defender = attacker.trait_effects;
    takes_retaliation = takes_retaliation || attacker.status_effects.takes_retaliation || !(
    !defender_in_range || to_defender >= defender.current_hp || !defender.retaliates
        || attacker.surprise || effects_to_defender.frozen || effects_to_defender.converted
        || defender.status_effects.frozen);
    let total_to_attacker = if attacker.status_effects.exploding {
        attacker.max_hp
    } else if takes_retaliation {
        to_attacker + tentacles
    } else {
        tentacles
    };
    let total_effects_to_attacker = if takes_retaliation {
        defender.trait_effects
    } else {
        StatusEffects::empty()
    };
    (
        UnitResult { damage: total_to_attacker, status_effects: total_effects_to_attacker },
        UnitResult { damage: to_defender, status_effects: effects_to_defender },
    )
}

/// The record of one engagement: both units as they went into it, and what
/// each of them received.
#[derive(Clone, Copy, Debug, PartialEq, Eq, Structural)]
pub struct CombatEvent {
    pub attacker: Unit,
    pub defender: Unit,
    pub damage_to_attacker: u32,
    pub damage_to_defender: u32,
    pub status_effects_to_attacker: StatusEffects,
    pub status_effects_to_defender: StatusEffects,
}

pub open spec fn spec_whole_points(tenths: u32) -> u32 {
    ((tenths + 5) / 10) as u32
}

/// Health or damage in tenths as whole points, rounded to the nearest one
/// and upward from a half.
#[verifier::when_used_as_spec(spec_whole_points)]
pub fn whole_points(tenths: u32) -> (points: u32)
    ensures
        points == spec_whole_points(tenths),
{
    tenths / 10 + (if tenths % 10 >= 5 {
        1
    } else {
        0
    })
}

impl CombatEvent {
    /// The health that the engagement leaves the attacker: what it had less
    /// the damage, but not less than nothing.
    pub fn attacker_hp_left(&self) -> (hp: u32)
        ensures
            hp == if self.damage_to_attacker < self.attacker.current_hp {
                self.attacker.current_hp - self.damage_to_attacker
            } else {
                0
            },
    {
        if self.damage_to_attacker < self.attacker.current_hp {
            self.attacker.current_hp - self.damage_to_attacker
        } else {
            0
        }
    }

    /// The health that the engagement leaves the defender: what it had less
    /// the damage, but not less than nothing.
    pub fn defender_hp_left(&self) -> (hp: u32)
        ensures
            hp == if self.damage_to_defender < self.defender.current_hp {
                self.defender.current_hp - self.damage_to_defender
            } else {
                0
            },
    {
        if self.damage_to_defender < self.defender.current_hp {
            self.defender.current_hp - self.damage_to_defender
        } else {
            0
        }
    }
}

/// The events of a batch of engagements, in the order in which they were resolved.
#[derive(Debug)]
pub struct CombatLog(pub Vec<CombatEvent>);

impl View for CombatLog {
    type V = Seq<CombatEvent>;

    open spec fn view(&self) -> Seq<CombatEvent> {
        self.0@
    }
}

impl CombatLog {
    /// A log without events.
    pub fn new() -> (r: CombatLog)
        ensures
            r@ == Seq::<CombatEvent>::empty(),
    {
        CombatLog(Vec::new())
    }
}

impl Default for CombatLog {
    fn default() -> (r: CombatLog)
        ensures
            r@ == Seq::<CombatEvent>::empty(),
    {
        CombatLog::new()
    }
}

/// The record of the engagement of `attacker` with `defender`.
pub open spec fn event_of(attacker: Unit, defender: Unit) -> CombatEvent {
    CombatEvent {
        attacker,
        defender,
        damage_to_attacker: damage_to_attacker(attacker, defender) as u32,
        damage_to_defender: damage_to_defender(attacker, defender) as u32,
        status_effects_to_attacker: effects_to_attacker(attacker, defender),
        status_effects_to_defender: attacker.trait_effects,
    }
}

/// Whether the attack leaves the defender nothing: the damage is no less
/// than the health that the defender has.
pub open spec fn eliminates(attacker: Unit, defender: Unit) -> bool {
    damage_to_defender(attacker, defender) >= defender.current_hp
}

/// The defender after an attack that it survives: its health is less by the
/// damage, and the attacker's effects are applied to it.
pub open spec fn wounded(attacker: Unit, defender: Unit) -> Unit {
    (Unit {
        current_hp: (defender.current_hp - damage_to_defender(attacker, defender)) as u32,
        ..defender
    }).spec_apply(attacker.trait_effects)
}

/// The lesser of two numbers.
pub open spec fn at_most(x: int, limit: int) -> int {
    if x <= limit {
        x
    } else {
        limit
    }
}

/// What one engagement adds to the score: the health that the defender
/// loses less the health that the attacker loses. Neither can lose more than it has.
pub open spec fn exchange(attacker: Unit, defender: Unit) -> int {
    at_most(damage_to_defender(attacker, defender), defender.current_hp as int) - at_most(
        damage_to_attacker(attacker, defender),
        attacker.current_hp as int,
    )
}

/// How far a batch of engagements has come.
pub struct Batch {
    /// The defenders, as the engagements so far have left them.
    pub defenders: Seq<Unit>,
    /// The place of the defender that the next attacker meets.
    pub index: int,
    pub score: int,
    pub log: Seq<CombatEvent>,
}

impl Batch {
    /// A batch before its first engagement.
    pub open spec fn start(defenders: Seq<Unit>) -> Batch {
        Batch { defenders, index: 0, score: 0, log: Seq::empty() }
    }

    /// Whether a defender is left to meet.
    pub open spec fn has_defender(self) -> bool {
        0 <= self.index < self.defenders.len()
    }

    /// The batch after one more attacker has had its engagement.
    ///
    /// The attacker meets the defender at `index`. Where it eliminates that
    /// defender, the next attacker meets the next defender, and the score
    /// gains the kill bonus; else the defender stays, wounded. Where no
    /// defender is left, nothing happens.
    pub open spec fn step(self, attacker: Unit, kill_bonus: int) -> Batch {
        if !self.has_defender() {
            self
        } else {
            let defender = self.defenders[self.index];
            let log = self.log.push(event_of(attacker, defender));
            if eliminates(attacker, defender) {
                Batch {
                    defenders: self.defenders,
                    index: self.index + 1,
                    score: self.score + exchange(attacker, defender) + kill_bonus,
                    log,
                }
            } else {
                Batch {
                    defenders: self.defenders.update(self.index, wounded(attacker, defender)),
                    index: self.index,
                    score: self.score + exchange(attacker, defender),
                    log,
                }
            }
        }
    }

    /// The batch after the first `n` of `attackers` have had their engagements, in order.
    pub open spec fn after(
        attackers: Seq<Unit>,
        defenders: Seq<Unit>,
        kill_bonus: int,
        n: nat,
    ) -> Batch
        decreases n,
    {
        if n == 0 {
            Batch::start(defenders)
        } else {
            Batch::after(attackers, defenders, kill_bonus, (n - 1) as nat).step(
                attackers[n - 1],
                kill_bonus,
            )
        }
    }

    /// The batch after all of `attackers` have had their engagements.
    pub open spec fn run(attackers: Seq<Unit>, defenders: Seq<Unit>, kill_bonus: int) -> Batch {
        Batch::after(attackers, defenders, kill_bonus, attackers.len())
    }

    /// Whether every defender is well formed and the index is a place or the end.
    pub open spec fn wf(self) -> bool {
        &&& 0 <= self.index <= self.defenders.len()
        &&& all_wf(self.defenders)
    }
}

/// The score of a batch of engagements: the health that the defenders lose
/// less the health that the attackers lose, and `kill_bonus` for every
/// defender eliminated.
pub open spec fn batch_score(attackers: Seq<Unit>, defenders: Seq<Unit>, kill_bonus: int) -> int {
    Batch::run(attackers, defenders, kill_bonus).score
}

/// The events of a batch of engagements.
pub open spec fn batch_log(attackers: Seq<Unit>, defenders: Seq<Unit>) -> Seq<CombatEvent> {
    Batch::run(attackers, defenders, 0).log
}

/// One engagement takes from neither unit more than it has, moves on to the
/// next defender only past one that it eliminates, and otherwise leaves the
/// defender with less health than before, but some.
pub proof fn lemma_step(batch: Batch, attacker: Unit, kill_bonus: int)
    requires
        batch.wf(),
        attacker.wf(),
    ensures
        ({
            let next = batch.step(attacker, kill_bonus);
            &&& next.wf()
            &&& next.defenders.len() == batch.defenders.len()
            &&& !batch.has_defender() ==> next == batch
            &&& batch.has_defender() ==> {
                let defender = batch.defenders[batch.index];
                let kill = eliminates(attacker, defender);
                &&& next.index == batch.index + (if kill { 1int } else { 0int })
                &&& next.score == batch.score + exchange(attacker, defender) + (if kill {
                    kill_bonus
                } else {
                    0
                })
                &&& -attacker.current_hp <= exchange(attacker, defender) <= defender.current_hp
                &&& kill ==> next.defenders == batch.defenders
                &&& !kill ==> {
                    &&& 0 < next.defenders[batch.index].current_hp <= defender.current_hp
                    &&& next.defenders[batch.index].current_hp == defender.current_hp
                        - damage_to_defender(attacker, defender)
                    &&& forall|i: int|
                        0 <= i < batch.defenders.len() && i != batch.index
                            ==> next.defenders[i] == batch.defenders[i]
                }
                &&& next.log == batch.log.push(event_of(attacker, defender))
            }
        }),
{
    if batch.has_defender() {
        let defender = batch.defenders[batch.index];
        assert(defender.wf());
        lemma_damage_bounds(attacker, defender);
    }
}

/// A batch takes its attackers one by one: after `n` of them it has
/// resolved no more than `n` engagements and has moved on by no more
/// defenders than it has resolved engagements. No defender has gained
/// health, and the defenders not yet met are as they were.
pub proof fn lemma_batch(attackers: Seq<Unit>, defenders: Seq<Unit>, kill_bonus: int, n: nat)
    requires
        all_wf(attackers),
        all_wf(defenders),
        n <= attackers.len(),
    ensures
        ({
            let batch = Batch::after(attackers, defenders, kill_bonus, n);
            &&& batch.wf()
            &&& batch.defenders.len() == defenders.len()
            &&& batch.index <= batch.log.len() <= n
            &&& forall|i: int|
                0 <= i < defenders.len() ==> (#[trigger] batch.defenders[i]).current_hp
                    <= defenders[i].current_hp
            &&& forall|i: int|
                batch.index < i < defenders.len() ==> #[trigger] batch.defenders[i]
                    == defenders[i]
        }),
    decreases n,
{
    if n > 0 {
        let before = Batch::after(attackers, defenders, kill_bonus, (n - 1) as nat);
        lemma_batch(attackers, defenders, kill_bonus, (n - 1) as nat);
        assert(attackers[n - 1].wf());
        lemma_step(before, attackers[n - 1], kill_bonus);
    }
}

/// Damage is never negative, and never more than the formula can give.
pub proof fn lemma_damage_bounds(attacker: Unit, defender: Unit)
    requires
        attacker.wf(),
        defender.wf(),
    ensures
        0 <= damage_to_defender(attacker, defender) <= MAX_POINTS * POINT,
        0 <= tentacle_damage(attacker, defender) <= MAX_POINTS * POINT,
        0 <= retaliation_damage(attacker, defender) <= MAX_POINTS * POINT,
        0 <= damage_to_attacker(attacker, defender) <= u32::MAX,
{
    lemma_weights_bounds(attacker, defender);
    let a = engaged_attack(attacker, defender);
    let d = engaged_defense(attacker, defender);
    crate::damage::lemma_struck_points_bound(a, a + d, attacker.attack as int);
    crate::damage::lemma_struck_points_bound(d, a + d, defender.defense as int);
    let ta = attack_weight(defender.attack as int, health_of(defender), health_of(attacker));
    let td = defense_weight(
        attacker.defense as int,
        attacker.defense_bonus as int,
        health_of(defender),
        health_of(attacker),
    );
    crate::damage::lemma_struck_points_bound(ta, ta + td, defender.attack as int);
}

/// The weights of an engagement are never negative.
proof fn lemma_weights_bounds(attacker: Unit, defender: Unit)
    ensures
        0 <= engaged_attack(attacker, defender),
        0 <= engaged_defense(attacker, defender),
        0 <= attack_weight(defender.attack as int, health_of(defender), health_of(attacker)),
        0 <= defense_weight(
            attacker.defense as int,
            attacker.defense_bonus as int,
            health_of(defender),
            health_of(attacker),
        ),
{
    let s = striking_health(attacker, defender);
    assert(0 <= 10 * attacker.attack * s.hp * defender.max_hp) by (nonlinear_arith)
        requires
            0 <= attacker.attack,
            0 <= s.hp,
            0 <= defender.max_hp,
    ;
    assert(0 <= defender.defense * defender.defense_bonus * defender.current_hp * s.max_hp)
        by (nonlinear_arith)
        requires
            0 <= defender.defense,
            0 <= defender.defense_bonus,
            0 <= defender.current_hp,
            0 <= s.max_hp,
    ;
    assert(0 <= 10 * defender.attack * defender.current_hp * attacker.max_hp) by (nonlinear_arith)
        requires
            0 <= defender.attack,
            0 <= defender.current_hp,
            0 <= attacker.max_hp,
    ;
    assert(0 <= attacker.defense * attacker.defense_bonus * attacker.current_hp * defender.max_hp)
        by (nonlinear_arith)
        requires
            0 <= attacker.defense,
            0 <= attacker.defense_bonus,
            0 <= attacker.current_hp,
            0 <= defender.max_hp,
    ;
}

/// Whether two units have the same attack, defense and health, and no active effects.
pub open spec fn evenly_matched(a: Unit, b: Unit) -> bool {
    &&& a.attack == b.attack
    &&& a.defense == b.defense
    &&& a.current_hp == b.current_hp
    &&& a.max_hp == b.max_hp
    &&& a.status_effects == StatusEffects::empty()
    &&& b.status_effects == StatusEffects::empty()
}

/// Whether two units agree in what decides about retaliation: range,
/// whether they retaliate, and whether their attacks surprise, freeze or convert.
pub open spec fn alike_in_reach(a: Unit, b: Unit) -> bool {
    &&& a.range == b.range
    &&& a.retaliates == b.retaliates
    &&& a.surprise == b.surprise
    &&& a.trait_effects.frozen == b.trait_effects.frozen
    &&& a.trait_effects.converted == b.trait_effects.converted
}

/// Between two evenly matched units, both with tentacles or both without,
/// it makes no difference to what the formula deals which of them attacks.
pub proof fn lemma_evenly_matched(a: Unit, b: Unit)
    requires
        a.wf(),
        b.wf(),
        evenly_matched(a, b),
        a.tentacles == b.tentacles,
    ensures
        damage_to_defender(a, b) == damage_to_defender(b, a),
        retaliation_damage(a, b) == retaliation_damage(b, a),
        tentacle_damage(a, b) == 0,
        tentacle_damage(b, a) == 0,
{
    assert(striking_health(a, b) == striking_health(b, a));
    assert(health_of(a) == health_of(b));
    assert(engaged_attack(a, b) == engaged_attack(b, a));
    assert(engaged_defense(a, b) == engaged_defense(b, a));
}

/// Where the two are also alike in reach, it makes no difference to what
/// the attacker receives either.
pub proof fn lemma_evenly_matched_in_reach(a: Unit, b: Unit)
    requires
        a.wf(),
        b.wf(),
        evenly_matched(a, b),
        a.tentacles == b.tentacles,
        alike_in_reach(a, b),
    ensures
        damage_to_defender(a, b) == damage_to_defender(b, a),
        damage_to_attacker(a, b) == damage_to_attacker(b, a),
{
    lemma_evenly_matched(a, b);
}

/// Without force on either side there is no damage on either side.
pub proof fn lemma_no_force(attacker: Unit, defender: Unit)
    requires
        engaged_attack(attacker, defender) == 0,
        engaged_defense(attacker, defender) == 0,
    ensures
        damage_to_defender(attacker, defender) == 0,
        retaliation_damage(attacker, defender) == 0,
{
}

/// An attacker that explodes receives exactly its maximum health in
/// damage, whatever the defender is.
pub proof fn lemma_exploding(attacker: Unit, defender: Unit)
    requires
        attacker.status_effects.exploding,
    ensures
        damage_to_attacker(attacker, defender) == attacker.max_hp,
{
}

/// What one engagement means for a batch.
#[derive(Clone, Copy, Debug)]
pub struct Engagement {
    /// What the engagement adds to the score, before any kill bonus.
    pub exchange: i64,
    /// The defender as the engagement leaves it, or `None` where it is eliminated.
    pub survivor: Option<Unit>,
    pub event: CombatEvent,
}

/// Resolves one engagement of a batch.
pub fn engage(attacker: &Unit, defender: &Unit) -> (r: Engagement)
    requires
        attacker.wf(),
        defender.wf(),
    ensures
        r.exchange == exchange(*attacker, *defender),
        -attacker.current_hp <= r.exchange <= defender.current_hp,
        r.survivor == if eliminates(*attacker, *defender) {
            None
        } else {
            Some(wounded(*attacker, *defender))
        },
        r.survivor matches Some(unit) ==> unit.wf(),
        r.event == event_of(*attacker, *defender),
{
    proof {
        lemma_damage_bounds(*attacker, *defender);
    }
    let (to_attacker, to_defender) = single_combat(attacker, defender);
    let lost: u32 = if to_attacker.damage < attacker.current_hp {
        to_attacker.damage
    } else {
        attacker.current_hp
    };
    let won: u32 = if to_defender.damage < defender.current_hp {
        to_defender.damage
    } else {
        defender.current_hp
    };
    let survivor = if to_defender.damage >= defender.current_hp {
        None
    } else {
        let mut unit = *defender;
        unit.current_hp = unit.current_hp - to_defender.damage;
        unit.apply_status_effects(to_defender.status_effects);
        Some(unit)
    };
    Engagement {
        exchange: (won as i64) - (lost as i64),
        survivor,
        event: CombatEvent {
            attacker: *attacker,
            defender: *defender,
            damage_to_attacker: to_attacker.damage,
            damage_to_defender: to_defender.damage,
            status_effects_to_attacker: to_attacker.status_effects,
            status_effects_to_defender: to_defender.status_effects,
        },
    }
}

/// Scores a batch of engagements without a kill bonus: every attacker in
/// turn meets the first defender that is not yet eliminated.
pub fn multi_combat_score(attackers: &Units, defenders: Units) -> (score: i64)
    requires
        attackers.all_wf(),
        defenders.all_wf(),
    ensures
        score == batch_score(attackers@, defenders@, 0),
{
    multi_combat_score_with_bonus(attackers, defenders, 0)
}

/// Scores a batch of engagements, with `kill_bonus` added for every defender eliminated.
pub fn multi_combat_score_with_bonus(attackers: &Units, defenders: Units, kill_bonus: u32) -> (score:
    i64)
    requires
        attackers.all_wf(),
        defenders.all_wf(),
    ensures
        score == batch_score(attackers@, defenders@, kill_bonus as int),
        -0x2_0000_0000 * attackers@.len() <= score <= 0x2_0000_0000 * attackers@.len(),
{
    let mut defenders = defenders;
    let ghost start = defenders@;
    let n_attackers = attackers.len();
    let n_defenders = defenders.len();
    let mut score: i64 = 0;
    let mut d_idx: usize = 0;
    let mut a_idx: usize = 0;
    while a_idx < n_attackers && d_idx < n_defenders
        invariant
            attackers.all_wf(),
            n_attackers == attackers@.len(),
            n_defenders == defenders@.len(),
            n_attackers <= 12,
            a_idx <= n_attackers,
            ({
                let batch = Batch::after(attackers@, start, kill_bonus as int, a_idx as nat);
                &&& batch.wf()
                &&& batch.defenders == defenders@
                &&& batch.index == d_idx
                &&& batch.score == score
            }),
            -0x2_0000_0000 * a_idx <= score <= 0x2_0000_0000 * a_idx,
        decreases n_attackers - a_idx,
    {
        let attacker = attackers.get(a_idx);
        let defender = defenders.get(d_idx);
        proof {
            let batch = Batch::after(attackers@, start, kill_bonus as int, a_idx as nat);
            assert(attackers@[a_idx as int].wf());
            assert(batch.defenders[d_idx as int].wf());
            lemma_step(batch, attacker, kill_bonus as int);
        }
        let outcome = engage(&attacker, &defender);
        score = score + outcome.exchange;
        match outcome.survivor {
            None => {
                d_idx = d_idx + 1;
                score = score + (kill_bonus as i64);
            },
            Some(unit) => {
                defenders.set(d_idx, unit);
            },
        }
        a_idx = a_idx + 1;
    }
    proof {
        lemma_after_closed(attackers@, start, kill_bonus as int, a_idx as nat, n_attackers as nat);
    }
    score
}

/// Once no defender is left, further attackers change nothing.
pub proof fn lemma_after_closed(
    attackers: Seq<Unit>,
    defenders: Seq<Unit>,
    kill_bonus: int,
    n: nat,
    m: nat,
)
    requires
        n <= m,
        n == m || !Batch::after(attackers, defenders, kill_bonus, n).has_defender(),
    ensures
        Batch::after(attackers, defenders, kill_bonus, m) == Batch::after(
            attackers,
            defenders,
            kill_bonus,
            n,
        ),
    decreases m - n,
{
    if n < m {
        lemma_after_closed(attackers, defenders, kill_bonus, n, (m - 1) as nat);
    }
}

/// Resolves a batch of engagements as [`multi_combat_score`] does and
/// records every engagement.
pub fn multi_combat_log(attackers: &Units, defenders: Units) -> (log: CombatLog)
    requires
        attackers.all_wf(),
        defenders.all_wf(),
    ensures
        log@ == batch_log(attackers@, defenders@),
{
    let mut defenders = defenders;
    let ghost start = defenders@;
    let mut log = CombatLog::new();
    let n_attackers = attackers.len();
    let n_defenders = defenders.len();
    let mut d_idx: usize = 0;
    let mut a_idx: usize = 0;
    while a_idx < n_attackers && d_idx < n_defenders
        invariant
            attackers.all_wf(),
            n_attackers == attackers@.len(),
            n_defenders == defenders@.len(),
            a_idx <= n_attackers,
            ({
                let batch = Batch::after(attackers@, start, 0, a_idx as nat);
                &&& batch.wf()
                &&& batch.defenders == defenders@
                &&& batch.index == d_idx
                &&& batch.log == log@
            }),
        decreases n_attackers - a_idx,
    {
        let attacker = attackers.get(a_idx);
        let defender = defenders.get(d_idx);
        proof {
            let batch = Batch::after(attackers@, start, 0, a_idx as nat);
            assert(attackers@[a_idx as int].wf());
            assert(batch.defenders[d_idx as int].wf());
            lemma_step(batch, attacker, 0);
        }
        let outcome = engage(&attacker, &defender);
        log.0.push(outcome.event);
        match outcome.survivor {
            None => {
                d_idx = d_idx + 1;
            },
            Some(unit) => {
                defenders.set(d_idx, unit);
            },
        }
        a_idx = a_idx + 1;
    }
    proof {
        lemma_after_closed(attackers@, start, 0, a_idx as nat, n_attackers as nat);
    }
    log
}

} // verus!
