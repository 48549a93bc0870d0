//! Colours: red, green and blue.
use crate::math::arithmetic::{
    as_byte, difference, functional, product, quotient, rounded, sum, whole, Arithmetic,
};
use crate::math::float::{clamp, equal, spec_clamp, spec_equal, ONE, ZERO};
use crate::ppm::{decimal, push_decimal};
use vstd::prelude::*;

verus! {

/// The largest sample of the plain text format, as a number.
pub const MAX_SAMPLE: u64 = 0x406f_e000_0000_0000;

/// The number by which a channel is multiplied for the binary format: 256.
pub const MAX_BINARY: u64 = 0x4070_0000_0000_0000;

/// A colour. Every channel is a number, held as its bit pattern; zero is
/// dark and one is full.
#[derive(Clone, Copy, Debug, Default, PartialEq, Eq, Structural)]
pub struct Colour {
    /// The red channel.
    pub red: u64,
    /// The green channel.
    pub green: u64,
    /// The blue channel.
    pub blue: u64,
}

/// The sum of two colours, channel by channel.
pub open spec fn colour_sum<A: Arithmetic<u64>>(arith: &A, a: Colour, b: Colour) -> Colour {
    Colour {
        red: sum(arith, a.red, b.red),
        green: sum(arith, a.green, b.green),
        blue: sum(arith, a.blue, b.blue),
    }
}

/// The difference of two colours, channel by channel.
pub open spec fn colour_difference<A: Arithmetic<u64>>(arith: &A, a: Colour, b: Colour) -> Colour {
    Colour {
        red: difference(arith, a.red, b.red),
        green: difference(arith, a.green, b.green),
        blue: difference(arith, a.blue, b.blue),
    }
}

/// The product of two colours, channel by channel.
pub open spec fn colour_product<A: Arithmetic<u64>>(arith: &A, a: Colour, b: Colour) -> Colour {
    Colour {
        red: product(arith, a.red, b.red),
        green: product(arith, a.green, b.green),
        blue: product(arith, a.blue, b.blue),
    }
}

/// The quotient of two colours, channel by channel.
pub open spec fn colour_quotient<A: Arithmetic<u64>>(arith: &A, a: Colour, b: Colour) -> Colour {
    Colour {
        red: quotient(arith, a.red, b.red),
        green: quotient(arith, a.green, b.green),
        blue: quotient(arith, a.blue, b.blue),
    }
}

/// The colour with the same number in every channel.
pub open spec fn grey(k: u64) -> Colour {
    Colour { red: k, green: k, blue: k }
}

/// Whether two colours are equal within the tolerance, channel by channel.
pub open spec fn colour_equal<A: Arithmetic<u64>>(arith: &A, a: Colour, b: Colour) -> bool {
    &&& spec_equal(arith, a.red, b.red)
    &&& spec_equal(arith, a.green, b.green)
    &&& spec_equal(arith, a.blue, b.blue)
}

/// The sample of a channel: the channel times `max`, rounded, held between
/// zero and `max`, as a byte.
pub open spec fn sampled<A: Arithmetic<u64>>(arith: &A, channel: u64, max: u64) -> u8 {
    as_byte(arith, spec_clamp(rounded(arith, product(arith, channel, max)), ZERO, max))
}

/// The sample of a channel.
pub fn sample<A: Arithmetic<u64>>(channel: u64, max: u64, arith: &A) -> (s: u8)
    ensures
        functional(arith) ==> s == sampled(arith, channel, max),
{
    arith.byte(clamp(arith.round(arith.times(channel, max)), ZERO, max))
}

/// The three samples of a colour for the plain text format.
pub open spec fn samples_of<A: Arithmetic<u64>>(arith: &A, c: Colour) -> (u8, u8, u8) {
    (
        sampled(arith, c.red, MAX_SAMPLE),
        sampled(arith, c.green, MAX_SAMPLE),
        sampled(arith, c.blue, MAX_SAMPLE),
    )
}

impl Colour {
    /// Full red.
    pub fn red() -> (c: Self)
        ensures
            c == (Colour { red: ONE, green: ZERO, blue: ZERO }),
    {
        Colour { red: ONE, green: ZERO, blue: ZERO }
    }

    /// Full green.
    pub fn green() -> (c: Self)
        ensures
            c == (Colour { red: ZERO, green: ONE, blue: ZERO }),
    {
        Colour { red: ZERO, green: ONE, blue: ZERO }
    }

    /// Full blue.
    pub fn blue() -> (c: Self)
        ensures
            c == (Colour { red: ZERO, green: ZERO, blue: ONE }),
    {
        Colour { red: ZERO, green: ZERO, blue: ONE }
    }

    /// Black: every channel dark.
    pub fn black() -> (c: Self)
        ensures
            c == grey(ZERO),
    {
        Colour { red: ZERO, green: ZERO, blue: ZERO }
    }

    /// White: every channel full.
    pub fn white() -> (c: Self)
        ensures
            c == grey(ONE),
    {
        Colour { red: ONE, green: ONE, blue: ONE }
    }

    /// The colour of the given channels.
    pub fn new(red: u64, green: u64, blue: u64) -> (c: Self)
        ensures
            c == (Colour { red, green, blue }),
    {
        Self { red, green, blue }
    }

    /// The colour whose channels are the given whole numbers.
    pub fn newi<A: Arithmetic<u64>>(red: i32, green: i32, blue: i32, arith: &A) -> (c: Self)
        ensures
            functional(arith) ==> c == (Colour {
                red: whole(arith, red),
                green: whole(arith, green),
                blue: whole(arith, blue),
            }),
    {
        Self::new(arith.number(red), arith.number(green), arith.number(blue))
    }

    /// The sum of two colours.
    pub fn add<A: Arithmetic<u64>>(&self, rhs: &Self, arith: &A) -> (c: Self)
        ensures
            functional(arith) ==> c == colour_sum(arith, *self, *rhs),
    {
        Self {
            red: arith.plus(self.red, rhs.red),
            green: arith.plus(self.green, rhs.green),
            blue: arith.plus(self.blue, rhs.blue),
        }
    }

    /// The difference of two colours.
    pub fn sub<A: Arithmetic<u64>>(&self, rhs: &Self, arith: &A) -> (c: Self)
        ensures
            functional(arith) ==> c == colour_difference(arith, *self, *rhs),
    {
        Self {
            red: arith.minus(self.red, rhs.red),
            green: arith.minus(self.green, rhs.green),
            blue: arith.minus(self.blue, rhs.blue),
        }
    }

    /// The product of two colours, channel by channel.
    pub fn mul<A: Arithmetic<u64>>(&self, rhs: &Self, arith: &A) -> (c: Self)
        ensures
            functional(arith) ==> c == colour_product(arith, *self, *rhs),
    {
        Self {
            red: arith.times(self.red, rhs.red),
            green: arith.times(self.green, rhs.green),
            blue: arith.times(self.blue, rhs.blue),
        }
    }

    /// The quotient of two colours, channel by channel.
    pub fn div<A: Arithmetic<u64>>(&self, rhs: &Self, arith: &A) -> (c: Self)
        ensures
            functional(arith) ==> c == colour_quotient(arith, *self, *rhs),
    {
        Self {
            red: arith.over(self.red, rhs.red),
            green: arith.over(self.green, rhs.green),
            blue: arith.over(self.blue, rhs.blue),
        }
    }

    /// The colour with `rhs` added to every channel.
    pub fn add_scalar<A: Arithmetic<u64>>(&self, rhs: u64, arith: &A) -> (c: Self)
        ensures
            functional(arith) ==> c == colour_sum(arith, *self, grey(rhs)),
    {
        self.add(&Colour { red: rhs, green: rhs, blue: rhs }, arith)
    }

    /// The colour with `rhs` taken from every channel.
    pub fn sub_scalar<A: Arithmetic<u64>>(&self, rhs: u64, arith: &A) -> (c: Self)
        ensures
            functional(arith) ==> c == colour_difference(arith, *self, grey(rhs)),
    {
        self.sub(&Colour { red: rhs, green: rhs, blue: rhs }, arith)
    }

    /// The colour with every channel multiplied by `rhs`.
    pub fn mul_scalar<A: Arithmetic<u64>>(&self, rhs: u64, arith: &A) -> (c: Self)
        ensures
            functional(arith) ==> c == colour_product(arith, *self, grey(rhs)),
    {
        self.mul(&Colour { red: rhs, green: rhs, blue: rhs }, arith)
    }

    /// The colour with every channel divided by `rhs`.
    pub fn div_scalar<A: Arithmetic<u64>>(&self, rhs: u64, arith: &A) -> (c: Self)
        ensures
            functional(arith) ==> c == colour_quotient(arith, *self, grey(rhs)),
    {
        self.div(&Colour { red: rhs, green: rhs, blue: rhs }, arith)
    }

    /// Whether two colours are equal within the tolerance.
    pub fn eq<A: Arithmetic<u64>>(&self, other: &Self, arith: &A) -> (r: bool)
        ensures
            functional(arith) ==> r == colour_equal(arith, *self, *other),
    {
        equal(self.red, other.red, arith) && equal(self.green, other.green, arith) && equal(
            self.blue,
            other.blue,
            arith,
        )
    }

    /// The three samples of the colour for the plain text format, each from
    /// 0 to 255.
    pub fn to_rgb<A: Arithmetic<u64>>(&self, arith: &A) -> (samples: (u8, u8, u8))
        ensures
            functional(arith) ==> samples == samples_of(arith, *self),
    {
        (
            sample(self.red, MAX_SAMPLE, arith),
            sample(self.green, MAX_SAMPLE, arith),
            sample(self.blue, MAX_SAMPLE, arith),
        )
    }

    /// The colour in the plain text format: its three samples as decimal
    /// numbers, parted by blanks.
    pub fn to_ppm<A: Arithmetic<u64>>(&self, arith: &A) -> (text: String)
        ensures
            functional(arith) ==> text@ == decimal(samples_of(arith, *self).0 as nat) + seq![' ']
                + decimal(samples_of(arith, *self).1 as nat) + seq![' '] + decimal(
                samples_of(arith, *self).2 as nat,
            ),
    {
        let (red, green, blue) = self.to_rgb(arith);
        let mut text = String::new();
        push_decimal(&mut text, red as usize);
        text.push(' ');
        push_decimal(&mut text, green as usize);
        text.push(' ');
        push_decimal(&mut text, blue as usize);
        proof {
            assert(text@ =~= decimal(red as nat) + seq![' '] + decimal(green as nat) + seq![' ']
                + decimal(blue as nat));
        }
        text
    }

    /// The colour in the binary format: one byte to a channel.
    pub fn to_binary_ppm<A: Arithmetic<u64>>(&self, arith: &A) -> (bytes: [u8; 3])
        ensures
            functional(arith) ==> bytes@ == seq![
                sampled(arith, self.red, MAX_BINARY),
                sampled(arith, self.green, MAX_BINARY),
                sampled(arith, self.blue, MAX_BINARY),
            ],
    {
        let bytes = [
            sample(self.red, MAX_BINARY, arith),
            sample(self.green, MAX_BINARY, arith),
            sample(self.blue, MAX_BINARY, arith),
        ];
        proof {
            assert(bytes@ =~= seq![bytes[0], bytes[1], bytes[2]]);
        }
        bytes
    }
}

} // verus!
