use vstd::prelude::*;

use crate::dice::DiceRoll;

verus! {

// ASCII codes of the characters that a rendered roll is made of.
pub const ZERO: u8 = 48;
pub const MINUS: u8 = 45;
pub const PLUS: u8 = 43;
pub const COMMA: u8 = 44;
pub const SPACE: u8 = 32;
pub const LETTER_D: u8 = 100;
pub const COLON: u8 = 58;
pub const OPEN_BRACKET: u8 = 91;
pub const CLOSE_BRACKET: u8 = 93;
pub const EQUALS: u8 = 61;

/// The ASCII code of the decimal digit `d`.
pub open spec fn digit(d: nat) -> u8 {
    (ZERO + d) as u8
}

/// The decimal digits of `n`, most significant first, without leading zeros.
pub open spec fn decimal(n: nat) -> Seq<u8>
    decreases n,
{
    if n < 10 {
        seq![digit(n)]
    } else {
        decimal(n / 10).push(digit(n % 10))
    }
}

/// `v` in decimal, with a leading `-` when negative, and a leading `+`
/// otherwise when `explicit_plus` is set.
pub open spec fn signed_decimal(v: int, explicit_plus: bool) -> Seq<u8> {
    if v < 0 {
        seq![MINUS] + decimal((-v) as nat)
    } else if explicit_plus {
        seq![PLUS] + decimal(v as nat)
    } else {
        decimal(v as nat)
    }
}

/// The faces in decimal, separated by `", "`.
pub open spec fn face_list(s: Seq<u32>) -> Seq<u8>
    decreases s.len(),
{
    if s.len() == 0 {
        seq![]
    } else if s.len() == 1 {
        decimal(s[0] as nat)
    } else {
        face_list(s.drop_last()) + seq![COMMA, SPACE] + decimal(s.last() as nat)
    }
}

/// The text of a roll: `{num_dice}d{sides}{+/-modifier}: [{rolls}] = {total}`.
pub open spec fn rendering(r: DiceRoll) -> Seq<u8> {
    decimal(r.num_dice as nat) + seq![LETTER_D] + decimal(r.sides as nat) + signed_decimal(
        r.modifier as int,
        true,
    ) + seq![COLON, SPACE, OPEN_BRACKET] + face_list(r.rolls@) + seq![CLOSE_BRACKET, SPACE, EQUALS, SPACE]
        + signed_decimal(r.total as int, false)
}

/// Appends the decimal digits of `n`.
fn push_decimal(out: &mut Vec<u8>, n: u32)
    ensures
        final(out)@ == old(out)@ + decimal(n as nat),
    decreases n,
{
    if n >= 10 {
        push_decimal(out, n / 10);
    }
    let d: u8 = (n % 10) as u8;
    out.push(ZERO + d);
    proof {
        if n >= 10 {
            assert(old(out)@ + decimal(n as nat) =~= (old(out)@ + decimal((n / 10) as nat)).push(
                digit((n % 10) as nat),
            ));
        }
    }
}

/// Appends `v` in decimal, signed as `signed_decimal` says.
fn push_signed(out: &mut Vec<u8>, v: i32, explicit_plus: bool)
    ensures
        final(out)@ == old(out)@ + signed_decimal(v as int, explicit_plus),
{
    if v < 0 {
        out.push(MINUS);
        let magnitude: u32 = (-(v as i64)) as u32;
        push_decimal(out, magnitude);
        assert(final(out)@ =~= old(out)@ + signed_decimal(v as int, explicit_plus));
    } else {
        if explicit_plus {
            out.push(PLUS);
        }
        push_decimal(out, v as u32);
        assert(final(out)@ =~= old(out)@ + signed_decimal(v as int, explicit_plus));
    }
}

impl DiceRoll {
    /// The roll as ASCII text, for example `2d6+3: [4, 6] = 13`; the modifier
    /// always carries its sign.
    pub fn render(&self) -> (r: Vec<u8>)
        ensures
            r@ == rendering(*self),
    {
        let mut out: Vec<u8> = Vec::new();
        push_decimal(&mut out, self.num_dice);
        out.push(LETTER_D);
        push_decimal(&mut out, self.sides);
        push_signed(&mut out, self.modifier, true);
        out.push(COLON);
        out.push(SPACE);
        out.push(OPEN_BRACKET);
        let ghost head = out@;
        let mut i: usize = 0;
        while i < self.rolls.len()
            invariant
                0 <= i <= self.rolls@.len(),
                out@ == head + face_list(self.rolls@.subrange(0, i as int)),
            decreases self.rolls@.len() - i,
        {
            proof {
                let s = self.rolls@.subrange(0, i as int + 1);
                assert(s.drop_last() =~= self.rolls@.subrange(0, i as int));
                assert(s.last() == self.rolls@[i as int]);
            }
            if i > 0 {
                out.push(COMMA);
                out.push(SPACE);
            }
            push_decimal(&mut out, self.rolls[i]);
            i = i + 1;
        }
        assert(self.rolls@.subrange(0, self.rolls@.len() as int) =~= self.rolls@);
        out.push(CLOSE_BRACKET);
        out.push(SPACE);
        out.push(EQUALS);
        out.push(SPACE);
        push_signed(&mut out, self.total, false);
        assert(out@ =~= rendering(*self));
        out
    }
}

} // verus!
