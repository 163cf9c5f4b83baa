use vstd::prelude::*;
use crate::text::{spec_dec_int, dec_i16};

verus! {

/// The five ordinal styles a list head can ask for.
#[derive(Clone, Copy, PartialEq, Eq, Structural, Debug, Hash)]
pub enum NumberingStyle {
    Decimal,
    LowerAlpha,
    UpperAlpha,
    LowerRoman,
    UpperRoman,
}

/// What `{:x}` makes of `numerals::roman::Roman::from(n)`: the classical
/// lower-case Roman numeral of a positive `n`, a function of `n` alone.
pub uninterp spec fn roman_lower_of(n: int) -> Seq<u8>;

/// What `{:X}` makes of `numerals::roman::Roman::from(n)`: the upper-case
/// Roman numeral of a positive `n`, a function of `n` alone.
pub uninterp spec fn roman_upper_of(n: int) -> Seq<u8>;

/// Relies on numerals::roman::Roman::from, which is defined for positive
/// numbers alone, and on its LowerHex rendering, which writes the numeral
/// from the number and nothing else.
#[verifier::external_body]
fn roman_lower(n: i16) -> (r: Vec<u8>)
    requires
        n >= 1,
    ensures
        r@ == roman_lower_of(n as int),
{
    format!("{:x}", numerals::roman::Roman::from(n)).into_bytes()
}

/// Relies on numerals::roman::Roman::from, which is defined for positive
/// numbers alone, and on its UpperHex rendering, which writes the numeral
/// from the number and nothing else.
#[verifier::external_body]
fn roman_upper(n: i16) -> (r: Vec<u8>)
    requires
        n >= 1,
    ensures
        r@ == roman_upper_of(n as int),
{
    format!("{:X}", numerals::roman::Roman::from(n)).into_bytes()
}

/// The bare ordinal for cursor value `n`: decimal digits; a single letter
/// taken modulo 26, which wraps past the 26th item rather than growing to
/// two letters; or a Roman numeral, empty when `n` is not positive, since
/// the classical notation has no sign for zero.
pub open spec fn spec_ordinal(style: NumberingStyle, n: int) -> Seq<u8> {
    match style {
        NumberingStyle::Decimal => spec_dec_int(n),
        NumberingStyle::LowerAlpha => seq![(97 + (n % 26)) as u8],
        NumberingStyle::UpperAlpha => seq![(65 + (n % 26)) as u8],
        NumberingStyle::LowerRoman => if n >= 1 {
            roman_lower_of(n)
        } else {
            seq![]
        },
        NumberingStyle::UpperRoman => if n >= 1 {
            roman_upper_of(n)
        } else {
            seq![]
        },
    }
}

/// A full label: the ordinal followed by `. `.
pub open spec fn spec_label(style: NumberingStyle, n: int) -> Seq<u8> {
    spec_ordinal(style, n) + seq![46u8, 32u8]
}

/// The cursor after one label: the next number, wrapping at the type bound.
pub open spec fn spec_next_cursor(n: int) -> int {
    if n == 32767 {
        -32768
    } else {
        n + 1
    }
}

/// Index of `n` in the 26-letter alphabet, never negative.
fn alpha_index(n: i16) -> (r: u8)
    ensures
        r as int == (n as int) % 26,
        r < 26,
{
    if n >= 0 {
        (n as u16 % 26) as u8
    } else {
        let p: u32 = ((-(n as i32)) as u32) % 26;
        if p == 0 {
            assert((n as int) % 26 == 0);
            0u8
        } else {
            assert((n as int) % 26 == 26 - p);
            (26 - p) as u8
        }
    }
}

impl NumberingStyle {
    pub fn is_upper(&self) -> (r: bool)
        ensures
            r == (*self == NumberingStyle::UpperAlpha || *self == NumberingStyle::UpperRoman),
    {
        match self {
            NumberingStyle::UpperAlpha => true,
            NumberingStyle::UpperRoman => true,
            _ => false,
        }
    }

    pub fn iter_from(self, start: i16) -> (r: NumberingIterator)
        ensures
            r.style == self,
            r.current == start,
    {
        NumberingIterator::new(self, start)
    }
}

/// Produces the unbounded sequence of ordinal labels for one style, one
/// label per call, restartable only by building a new one.
pub struct NumberingIterator {
    pub style: NumberingStyle,
    pub current: i16,
}

impl NumberingIterator {
    pub fn new(style: NumberingStyle, start: i16) -> (r: Self)
        ensures
            r.style == style,
            r.current == start,
    {
        NumberingIterator { style, current: start }
    }

    /// The label for the current cursor value; the cursor then moves on.
    pub fn next_label(&mut self) -> (r: Vec<u8>)
        ensures
            r@ == spec_label(old(self).style, old(self).current as int),
            final(self).style == old(self).style,
            final(self).current as int == spec_next_cursor(old(self).current as int),
    {
        let n = self.current;
        let mut r: Vec<u8> = match self.style {
            NumberingStyle::Decimal => dec_i16(n),
            NumberingStyle::LowerAlpha => {
                let mut v: Vec<u8> = Vec::new();
                v.push(97 + alpha_index(n));
                v
            },
            NumberingStyle::UpperAlpha => {
                let mut v: Vec<u8> = Vec::new();
                v.push(65 + alpha_index(n));
                v
            },
            NumberingStyle::LowerRoman => {
                if n >= 1 {
                    roman_lower(n)
                } else {
                    Vec::new()
                }
            },
            NumberingStyle::UpperRoman => {
                if n >= 1 {
                    roman_upper(n)
                } else {
                    Vec::new()
                }
            },
        };
        r.push(46u8);
        r.push(32u8);
        assert(r@ =~= spec_label(self.style, n as int));
        if self.current == 32767i16 {
            self.current = -32768i16;
        } else {
            self.current = self.current + 1;
        }
        r
    }
}

} // verus!
