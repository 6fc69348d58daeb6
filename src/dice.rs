use rand::Rng;
use vstd::prelude::*;

verus! {

/// Sum of a sequence of die faces, as a mathematical integer.
pub open spec fn sum(s: Seq<u32>) -> int
    decreases s.len(),
{
    if s.len() == 0 {
        0
    } else {
        sum(s.drop_last()) + s.last()
    }
}

/// Every face in `s` lies in `[1, sides]`.
pub open spec fn faces_in_range(s: Seq<u32>, sides: u32) -> bool {
    forall|i: int| 0 <= i < s.len() ==> 1 <= #[trigger] s[i] <= sides
}

/// The larger of two faces: what a roll with advantage keeps.
pub open spec fn higher(a: u32, b: u32) -> u32 {
    if a >= b {
        a
    } else {
        b
    }
}

/// The smaller of two faces: what a roll with disadvantage keeps.
pub open spec fn lower(a: u32, b: u32) -> u32 {
    if a <= b {
        a
    } else {
        b
    }
}

/// Why a roll was refused before any die was drawn.
#[derive(Debug, Clone, Copy, PartialEq, Eq, Structural)]
pub enum DiceError {
    /// A die needs at least one side.
    InvalidRange,
}

/// The outcome of rolling `num_dice` dice of `sides` sides and adding `modifier`.
#[derive(Debug, Clone, PartialEq, Eq)]
pub struct DiceRoll {
    /// The number of dice rolled
    pub num_dice: u32,
    /// The number of sides on each die
    pub sides: u32,
    /// The modifier added to the total
    pub modifier: i32,
    /// Individual roll results, in the order they were drawn
    pub rolls: Vec<u32>,
    /// Total result including modifier
    pub total: i32,
}

impl DiceRoll {
    /// One face per die, each on the die, and the total is their sum plus the modifier.
    pub open spec fn wf(&self) -> bool {
        &&& self.rolls@.len() == self.num_dice
        &&& faces_in_range(self.rolls@, self.sides)
        &&& self.total == sum(self.rolls@) + self.modifier
    }
}

/// The sum of a prefix never exceeds the sum of the whole sequence.
pub proof fn lemma_sum_prefix_le(s: Seq<u32>, n: int)
    requires
        0 <= n <= s.len(),
    ensures
        0 <= sum(s.subrange(0, n)) <= sum(s),
    decreases s.len(),
{
    if n < s.len() {
        assert(s.drop_last() =~= s.subrange(0, s.len() - 1));
        lemma_sum_prefix_le(s.drop_last(), n);
        assert(s.drop_last().subrange(0, n) =~= s.subrange(0, n));
    } else {
        assert(s.subrange(0, n) =~= s);
        lemma_sum_nonneg(s);
    }
}

/// A sum of faces is never negative.
pub proof fn lemma_sum_nonneg(s: Seq<u32>)
    ensures
        sum(s) >= 0,
    decreases s.len(),
{
    if s.len() > 0 {
        lemma_sum_nonneg(s.drop_last());
    }
}

/// Faces of at most `sides` sum to at most `len * sides`.
pub proof fn lemma_sum_bounded(s: Seq<u32>, sides: u32)
    requires
        faces_in_range(s, sides),
    ensures
        sum(s) <= s.len() * sides,
    decreases s.len(),
{
    if s.len() > 0 {
        let t = s.drop_last();
        assert(faces_in_range(t, sides)) by {
            assert forall|i: int| 0 <= i < t.len() implies 1 <= #[trigger] t[i] <= sides by {
                assert(t[i] == s[i]);
            }
        }
        lemma_sum_bounded(t, sides);
        assert(s.last() == s[s.len() - 1]);
        assert(t.len() * sides + sides == s.len() * sides) by (nonlinear_arith)
            requires
                t.len() + 1 == s.len(),
        ;
    }
}

/// Builds the result of a roll from faces already drawn, in the order drawn.
pub fn tally(num_dice: u32, sides: u32, modifier: i32, rolls: Vec<u32>) -> (r: DiceRoll)
    requires
        rolls@.len() == num_dice,
        faces_in_range(rolls@, sides),
        sum(rolls@) + modifier <= i32::MAX,
    ensures
        r.wf(),
        r.num_dice == num_dice,
        r.sides == sides,
        r.modifier == modifier,
        r.rolls@ == rolls@,
        r.total == sum(rolls@) + modifier,
        num_dice == 0 ==> r.rolls@.len() == 0 && r.total == modifier,
{
    let mut acc: i64 = modifier as i64;
    let mut i: usize = 0;
    while i < rolls.len()
        invariant
            0 <= i <= rolls@.len(),
            acc == sum(rolls@.subrange(0, i as int)) + modifier,
            sum(rolls@) + modifier <= i32::MAX,
            i32::MIN <= modifier,
        decreases rolls@.len() - i,
    {
        proof {
            let s = rolls@.subrange(0, i as int + 1);
            assert(s.drop_last() =~= rolls@.subrange(0, i as int));
            lemma_sum_prefix_le(rolls@, i as int + 1);
        }
        acc = acc + rolls[i] as i64;
        i = i + 1;
    }
    proof {
        assert(rolls@.subrange(0, rolls@.len() as int) =~= rolls@);
        lemma_sum_nonneg(rolls@);
    }
    DiceRoll { num_dice, sides, modifier, rolls, total: acc as i32 }
}

/// Relies on rand's `thread_rng` and `Rng::gen_range` over `1..=sides`: an
/// integer drawn from the inclusive range, which must not be empty
/// (`gen_range` panics on an empty one). `thread_rng` itself panics only if
/// the operating system gives no seed on a thread's first draw.
#[verifier::external_body]
fn draw_die(sides: u32) -> (r: u32)
    requires
        1 <= sides,
    ensures
        1 <= r <= sides,
{
    rand::thread_rng().gen_range(1..=sides)
}

/// Rolls `num_dice` dice of `sides` sides and adds `modifier` to their sum.
/// A die without sides is refused before anything is drawn.
pub fn roll(num_dice: u32, sides: u32, modifier: i32) -> (r: Result<DiceRoll, DiceError>)
    requires
        num_dice as int * sides as int + modifier <= i32::MAX,
    ensures
        sides == 0 <==> r is Err,
        r matches Err(e) ==> e == DiceError::InvalidRange,
        r matches Ok(d) ==> {
            &&& d.wf()
            &&& d.num_dice == num_dice
            &&& d.sides == sides
            &&& d.modifier == modifier
            &&& num_dice == 0 ==> d.rolls@.len() == 0 && d.total == modifier
        },
{
    if sides == 0 {
        return Err(DiceError::InvalidRange);
    }
    let mut rolls: Vec<u32> = Vec::new();
    let mut k: u32 = 0;
    while k < num_dice
        invariant
            1 <= sides,
            k <= num_dice,
            rolls@.len() == k,
            faces_in_range(rolls@, sides),
        decreases num_dice - k,
    {
        let face = draw_die(sides);
        rolls.push(face);
        k = k + 1;
    }
    proof {
        lemma_sum_bounded(rolls@, sides);
    }
    Ok(tally(num_dice, sides, modifier, rolls))
}

/// Rolls one die of `sides` sides.
pub fn roll_simple(sides: u32) -> (r: Result<u32, DiceError>)
    ensures
        sides == 0 <==> r is Err,
        r matches Err(e) ==> e == DiceError::InvalidRange,
        r matches Ok(v) ==> 1 <= v <= sides,
{
    if sides == 0 {
        return Err(DiceError::InvalidRange);
    }
    Ok(draw_die(sides))
}

/// Of two faces already drawn, keeps the higher.
pub fn pick_advantage(first: u32, second: u32) -> (r: u32)
    ensures
        r == higher(first, second),
{
    if first >= second {
        first
    } else {
        second
    }
}

/// Of two faces already drawn, keeps the lower.
pub fn pick_disadvantage(first: u32, second: u32) -> (r: u32)
    ensures
        r == lower(first, second),
{
    if first <= second {
        first
    } else {
        second
    }
}

/// Rolls one die of `sides` sides twice, independently, and keeps the higher face.
pub fn roll_advantage(sides: u32) -> (r: Result<u32, DiceError>)
    ensures
        sides == 0 <==> r is Err,
        r matches Err(e) ==> e == DiceError::InvalidRange,
        r matches Ok(v) ==> 1 <= v <= sides,
{
    if sides == 0 {
        return Err(DiceError::InvalidRange);
    }
    let first = draw_die(sides);
    let second = draw_die(sides);
    Ok(pick_advantage(first, second))
}

/// Rolls one die of `sides` sides twice, independently, and keeps the lower face.
pub fn roll_disadvantage(sides: u32) -> (r: Result<u32, DiceError>)
    ensures
        sides == 0 <==> r is Err,
        r matches Err(e) ==> e == DiceError::InvalidRange,
        r matches Ok(v) ==> 1 <= v <= sides,
{
    if sides == 0 {
        return Err(DiceError::InvalidRange);
    }
    let first = draw_die(sides);
    let second = draw_die(sides);
    Ok(pick_disadvantage(first, second))
}

} // verus!
