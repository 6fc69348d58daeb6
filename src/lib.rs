//! Dice rolling: `N` dice of `S` sides plus a modifier, and single-die rolls
//! with advantage or disadvantage.
//!
//! Every random draw goes through one trusted call into `rand`; everything
//! built on the draws is verified, and is available as functions that take
//! the draws as arguments, so that fixed sequences can stand in for chance.

pub mod dice;
pub mod laws;
pub mod render;

pub use dice::{
    pick_advantage, pick_disadvantage, roll, roll_advantage, roll_disadvantage, roll_simple,
    tally, DiceError, DiceRoll,
};
