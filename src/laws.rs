use vstd::prelude::*;

use crate::dice::{higher, lower};

verus! {

/// A roll with advantage keeps one of its two draws, and is at least as high
/// as each of them.
pub proof fn advantage_keeps_the_higher_draw(first: u32, second: u32)
    ensures
        higher(first, second) >= first,
        higher(first, second) >= second,
        higher(first, second) == first || higher(first, second) == second,
{
}

/// A roll with disadvantage keeps one of its two draws, and is at most as high
/// as each of them.
pub proof fn disadvantage_keeps_the_lower_draw(first: u32, second: u32)
    ensures
        lower(first, second) <= first,
        lower(first, second) <= second,
        lower(first, second) == first || lower(first, second) == second,
{
}

/// On the same two draws, disadvantage never beats advantage, and the two
/// kept faces are the two draws.
pub proof fn advantage_and_disadvantage_split_the_draws(first: u32, second: u32)
    ensures
        lower(first, second) <= higher(first, second),
        lower(first, second) + higher(first, second) == first + second,
{
}

/// Disadvantage is advantage seen in a mirror: turning each face `f` of a
/// die with `sides` sides into `sides + 1 - f` turns the higher draw into the
/// lower one. Its distribution is the reflection of advantage's, skewed
/// toward 1 as much as advantage's is toward `sides`.
pub proof fn disadvantage_mirrors_advantage(sides: u32, first: u32, second: u32)
    requires
        1 <= first <= sides,
        1 <= second <= sides,
    ensures
        lower(first, second) == sides + 1 - higher(
            (sides + 1 - first) as u32,
            (sides + 1 - second) as u32,
        ),
        higher(first, second) == sides + 1 - lower(
            (sides + 1 - first) as u32,
            (sides + 1 - second) as u32,
        ),
{
}

} // verus!
