//! Predicts the outcome of engagements between small squads of units and
//! finds the order of attack with the best outcome.
//!
//! Every quantity is a whole number of tenths, and every result is exact:
//! [`damage`] holds the damage formula, [`combat`] resolves one engagement
//! and scores a batch of them, and [`optimizer`] searches all orders of
//! attackers and defenders for the best batch. [`perms`] generates the
//! orders one exchange at a time, and [`orderings`] proves that it reaches
//! each of them once. [`unit`], [`effects`] and [`roster`] hold the data,
//! and [`analysis`] answers questions about a single pair of units.
pub mod analysis;
pub mod combat;
pub mod damage;
pub mod effects;
pub mod optimizer;
pub mod orderings;
pub mod perms;
pub mod roster;
pub mod unit;
