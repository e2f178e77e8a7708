//! The damage formula, in exact arithmetic.
//!
//! An attack of force `a` against a defense of force `d` deals
//! `a / (a + d) * (4.5 * attack + 0.000001)` points to the defender, and the
//! defense deals `d / (a + d) * (4.5 * defense + 0.000001)` points back, each
//! rounded to the nearest whole point. The forces are
//! `a = attack * hp / max_hp` of the attacker and
//! `d = defense * hp / max_hp * bonus` of the defender. The millionth lifts a
//! share that would end in exactly one half over the half, so that it is
//! rounded up.
//!
//! Attack, defense, bonus and health are counted in tenths, and so is the
//! damage that comes out.
use vstd::prelude::*;
use vstd::arithmetic::mul::lemma_mul_upper_bound;
use crate::unit::{WALLED_BONUS, POINT};

verus! {

/// Health as a part of the maximum health. The damage formula is defined
/// where the maximum is positive.
#[derive(Clone, Copy, Debug, PartialEq, Eq, Structural)]
pub struct Ratio {
    pub hp: u32,
    pub max_hp: u32,
}

/// The attack force, multiplied by a hundred times both maximum healths.
pub open spec fn attack_weight(attack: int, attacker: Ratio, defender: Ratio) -> int {
    10 * attack * attacker.hp * defender.max_hp
}

/// The defense force, multiplied by a hundred times both maximum healths.
pub open spec fn defense_weight(defense: int, bonus: int, attacker: Ratio, defender: Ratio) -> int {
    defense * bonus * defender.hp * attacker.max_hp
}

/// The whole number nearest to `num / den`, the upper one where two are equally near.
pub open spec fn nearest(num: int, den: int) -> int {
    (2 * num + den) / (2 * den)
}

/// The whole points that a side deals whose force is `part` of the combined
/// force `whole` and whose attack or defense is `stat` tenths: none where
/// there is no force at all.
pub open spec fn struck_points(part: int, whole: int, stat: int) -> int {
    if whole == 0 {
        0
    } else {
        nearest(part * (450_000 * stat + 1), whole * 1_000_000)
    }
}

/// Whole points as tenths, or as half as many tenths where the damage is halved.
pub open spec fn as_damage(points: int, halved: bool) -> int {
    if halved {
        points * 5
    } else {
        points * 10
    }
}

/// What the attacker deals, in tenths.
pub open spec fn spec_attacker_damage(
    attack: u16,
    defense: u16,
    attacker: Ratio,
    defender: Ratio,
    bonus: u16,
) -> int {
    let a = attack_weight(attack as int, attacker, defender);
    let d = defense_weight(defense as int, bonus as int, attacker, defender);
    as_damage(struck_points(a, a + d, attack as int), false)
}

/// The most whole points that any side can deal: what the greatest attack
/// or defense that there is deals against no force at all.
pub const MAX_POINTS: u32 = 29_491;

/// `nearest(num, den)` is the whole number `r` with `r - 1/2 <= num / den < r + 1/2`.
pub proof fn lemma_nearest(num: int, den: int)
    requires
        0 <= num,
        0 < den,
    ensures
        0 <= nearest(num, den),
        (2 * nearest(num, den) - 1) * den <= 2 * num < (2 * nearest(num, den) + 1) * den,
{
    let r = nearest(num, den);
    assert(r == (2 * num + den) / (2 * den));
    assert(0 <= r && r * (2 * den) <= 2 * num + den < (r + 1) * (2 * den)) by (nonlinear_arith)
        requires
            r == (2 * num + den) / (2 * den),
            0 <= num,
            0 < den,
    ;
    assert((2 * r - 1) * den == r * (2 * den) - den) by (nonlinear_arith);
    assert((2 * r + 1) * den == (r + 1) * (2 * den) - den) by (nonlinear_arith);
}

/// No other whole number lies within one half of `num / den`, the lower
/// end counted and the upper end not.
pub proof fn lemma_nearest_unique(num: int, den: int, r: int)
    requires
        0 < den,
        (2 * r - 1) * den <= 2 * num < (2 * r + 1) * den,
    ensures
        nearest(num, den) == r,
{
    assert((2 * num + den) / (2 * den) == r) by (nonlinear_arith)
        requires
            0 < den,
            (2 * r - 1) * den <= 2 * num < (2 * r + 1) * den,
    ;
}

/// A side's share of the damage is never more than the side could deal alone.
pub proof fn lemma_struck_points_bound(part: int, whole: int, stat: int)
    requires
        0 <= part <= whole,
        0 <= stat <= u16::MAX,
    ensures
        0 <= struck_points(part, whole, stat) <= MAX_POINTS,
        struck_points(part, whole, stat) <= (900_000 * stat + 1_000_002) / 2_000_000,
{
    if whole != 0 {
        let f = 450_000 * stat + 1;
        let num = part * f;
        let den = whole * 1_000_000;
        let r = nearest(num, den);
        assert(0 <= num && 0 < den && num <= whole * f) by (nonlinear_arith)
            requires
                0 <= part <= whole,
                0 < whole,
                0 < f,
                num == part * f,
                den == whole * 1_000_000,
        ;
        lemma_nearest(num, den);
        assert(r * 2_000_000 <= 2 * f + 1_000_000) by (nonlinear_arith)
            requires
                (2 * r - 1) * den <= 2 * num,
                num <= whole * f,
                den == whole * 1_000_000,
                0 < whole,
        ;
    }
}

/// No force, no damage; and a side without force deals nothing.
pub proof fn lemma_struck_points_zero(part: int, whole: int, stat: int)
    requires
        0 <= part <= whole,
        0 <= stat,
        part == 0,
    ensures
        struck_points(part, whole, stat) == 0,
{
    if whole != 0 {
        let den = whole * 1_000_000;
        assert(part * (450_000 * stat + 1) == 0) by (nonlinear_arith)
            requires
                part == 0,
        ;
        assert((2 * 0 + den) / (2 * den) == 0) by (nonlinear_arith)
            requires
                0 < den,
        ;
    }
}

/// The two weights of an engagement.
fn weights(attack: u16, defense: u16, attacker: Ratio, defender: Ratio, bonus: u16) -> (w: (
    u128,
    u128,
))
    requires
        bonus <= WALLED_BONUS,
    ensures
        w.0 == attack_weight(attack as int, attacker, defender),
        w.1 == defense_weight(defense as int, bonus as int, attacker, defender),
        w.0 <= 10 * 0xffff * 0xffff_ffff * 0xffff_ffff,
        w.1 <= 40 * 0xffff * 0xffff_ffff * 0xffff_ffff,
{
    let ten_a: u128 = 10 * (attack as u128);
    proof {
        lemma_mul_upper_bound(attacker.hp as int, 0xffff_ffff, defender.max_hp as int, 0xffff_ffff);
        lemma_mul_upper_bound(
            ten_a as int,
            10 * 0xffffint,
            attacker.hp * defender.max_hp,
            0xffff_ffffint * 0xffff_ffffint,
        );
    }
    let hh: u128 = (attacker.hp as u128) * (defender.max_hp as u128);
    let a: u128 = ten_a * hh;
    assert(a == 10 * attack * attacker.hp * defender.max_hp) by (nonlinear_arith)
        requires
            a == (10 * attack) * (attacker.hp * defender.max_hp),
    ;
    proof {
        lemma_mul_upper_bound(defender.hp as int, 0xffff_ffff, attacker.max_hp as int, 0xffff_ffff);
        lemma_mul_upper_bound(defense as int, 0xffff, bonus as int, 40);
        lemma_mul_upper_bound(
            defense * bonus,
            0xffffint * 40,
            defender.hp * attacker.max_hp,
            0xffff_ffffint * 0xffff_ffffint,
        );
    }
    let gg: u128 = (defender.hp as u128) * (attacker.max_hp as u128);
    let db: u128 = (defense as u128) * (bonus as u128);
    let d: u128 = db * gg;
    assert(d == defense * bonus * defender.hp * attacker.max_hp) by (nonlinear_arith)
        requires
            d == (defense * bonus) * (defender.hp * attacker.max_hp),
    ;
    (a, d)
}

/// The whole points dealt by a side with force `part` of `whole` and the given stat.
fn points(part: u128, whole: u128, stat: u16) -> (r: u32)
    requires
        part <= whole <= 50 * 0xffff * 0xffff_ffff * 0xffff_ffff,
    ensures
        r == struck_points(part as int, whole as int, stat as int),
        r <= MAX_POINTS,
{
    if whole == 0 {
        return 0;
    }
    let f: u128 = 450_000 * (stat as u128) + 1;
    proof {
        lemma_mul_upper_bound(
            part as int,
            50 * 0xffffint * 0xffff_ffffint * 0xffff_ffffint,
            f as int,
            450_000 * 0xffffint + 1,
        );
        lemma_struck_points_bound(part as int, whole as int, stat as int);
        assert(50 * 0xffffint * 0xffff_ffffint * 0xffff_ffffint * (450_000 * 0xffffint + 1)
            < 0x4000_0000_0000_0000_0000_0000_0000_0000int) by (nonlinear_arith);
    }
    let num: u128 = part * f;
    let den: u128 = whole * 1_000_000;
    let r: u128 = (2 * num + den) / (2 * den);
    r as u32
}

/// What the attacker deals to the defender, in tenths. The defense bonus
/// is no greater than that of a wall.
pub fn calculate_attacker_damage(
    attack: u16,
    defense: u16,
    attacker: Ratio,
    defender: Ratio,
    defense_bonus: u16,
) -> (dealt: u32)
    requires
        defense_bonus <= WALLED_BONUS,
    ensures
        dealt == spec_attacker_damage(attack, defense, attacker, defender, defense_bonus),
        dealt <= MAX_POINTS * POINT,
        attack == 0 || attacker.hp == 0 || defender.max_hp == 0 ==> dealt == 0,
{
    let (a, d) = weights(attack, defense, attacker, defender, defense_bonus);
    proof {
        if attack == 0 || attacker.hp == 0 || defender.max_hp == 0 {
            assert(a == 0) by (nonlinear_arith)
                requires
                    a == 10 * attack * attacker.hp * defender.max_hp,
                    attack == 0 || attacker.hp == 0 || defender.max_hp == 0,
            ;
            lemma_struck_points_zero(a as int, a + d, attack as int);
        }
    }
    points(a, a + d, attack) * POINT
}

/// What each side deals to the other, in tenths: first what the attacker
/// receives, then what the defender receives. Both are halved on demand.
/// Where neither side has any force, neither deals anything. The defense
/// bonus is no greater than that of a wall.
pub fn calculate_damage(
    attack: u16,
    defense: u16,
    attacker: Ratio,
    defender: Ratio,
    defense_bonus: u16,
    halved: bool,
) -> (dealt: (u32, u32))
    requires
        defense_bonus <= WALLED_BONUS,
    ensures
        ({
            let a = attack_weight(attack as int, attacker, defender);
            let d = defense_weight(defense as int, defense_bonus as int, attacker, defender);
            &&& dealt.0 == as_damage(struck_points(d, a + d, defense as int), halved)
            &&& dealt.1 == as_damage(struck_points(a, a + d, attack as int), halved)
            &&& a + d == 0 ==> dealt == (0u32, 0u32)
        }),
        dealt.0 <= MAX_POINTS * POINT,
        dealt.1 <= MAX_POINTS * POINT,
{
    let (a, d) = weights(attack, defense, attacker, defender, defense_bonus);
    let to_defender = points(a, a + d, attack);
    let to_attacker = points(d, a + d, defense);
    if halved {
        (to_attacker * 5, to_defender * 5)
    } else {
        (to_attacker * POINT, to_defender * POINT)
    }
}

} // verus!
