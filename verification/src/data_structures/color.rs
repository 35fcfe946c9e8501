use vstd::prelude::*;
use crate::maths::scalar::{Scalar, BYTE_MAX_BITS, ONE_BITS};
use crate::traits::arithmetic::{adds, divides, multiplies, roots, Arithmetic};

verus! {

/// Red, green, blue and alpha.
#[derive(Clone, Copy, Debug)]
pub struct Color(pub Scalar, pub Scalar, pub Scalar, pub Scalar);

/// Four bytes in one word: red in the highest byte, then green, blue and alpha.
pub open spec fn pack(red: u8, green: u8, blue: u8, alpha: u8) -> u32 {
    ((red as u32) << 24) | ((green as u32) << 16) | ((blue as u32) << 8) | (alpha as u32)
}

/// The byte of a packed word at `place`: 0 for red, 1 for green, 2 for blue, 3 for alpha.
pub open spec fn channel(word: u32, place: int) -> u8 {
    if place == 0 {
        (word >> 24) as u8
    } else if place == 1 {
        ((word >> 16) & 0xff) as u8
    } else if place == 2 {
        ((word >> 8) & 0xff) as u8
    } else {
        (word & 0xff) as u8
    }
}

/// A packed word holds the four bytes it was packed from.
pub proof fn lemma_channel_of_pack(red: u8, green: u8, blue: u8, alpha: u8)
    ensures
        channel(pack(red, green, blue, alpha), 0) == red,
        channel(pack(red, green, blue, alpha), 1) == green,
        channel(pack(red, green, blue, alpha), 2) == blue,
        channel(pack(red, green, blue, alpha), 3) == alpha,
{
    let word = pack(red, green, blue, alpha);
    assert((word >> 24) as u8 == red && ((word >> 16) & 0xff) as u8 == green && ((word >> 8) & 0xff) as u8
        == blue && (word & 0xff) as u8 == alpha) by (bit_vector)
        requires
            word == ((red as u32) << 24) | ((green as u32) << 16) | ((blue as u32) << 8) | (alpha as u32),
    ;
}

/// Packing the four bytes of a word gives the word back.
pub proof fn lemma_pack_of_channels(word: u32)
    ensures
        pack(channel(word, 0), channel(word, 1), channel(word, 2), channel(word, 3)) == word,
{
    let r = (word >> 24) as u8;
    let g = ((word >> 16) & 0xff) as u8;
    let b = ((word >> 8) & 0xff) as u8;
    let a = (word & 0xff) as u8;
    assert(((r as u32) << 24) | ((g as u32) << 16) | ((b as u32) << 8) | (a as u32) == word) by (bit_vector)
        requires
            r == (word >> 24) as u8,
            g == ((word >> 16) & 0xff) as u8,
            b == ((word >> 8) & 0xff) as u8,
            a == (word & 0xff) as u8,
    ;
}

/// Executable `pack`.
pub fn pack_channels(red: u8, green: u8, blue: u8, alpha: u8) -> (word: u32)
    ensures
        word == pack(red, green, blue, alpha),
{
    ((red as u32) << 24) | ((green as u32) << 16) | ((blue as u32) << 8) | (alpha as u32)
}

/// Executable `channel`.
pub fn unpack_channel(word: u32, place: usize) -> (byte: u8)
    requires
        place < 4,
    ensures
        byte == channel(word, place as int),
{
    let shifted: u32 = if place == 0 {
        word >> 24
    } else if place == 1 {
        (word >> 16) & 0xff
    } else if place == 2 {
        (word >> 8) & 0xff
    } else {
        word & 0xff
    };
    assert(word >> 24 <= 0xff && (word >> 16) & 0xff <= 0xff && (word >> 8) & 0xff <= 0xff && word & 0xff
        <= 0xff) by (bit_vector);
    shifted as u8
}

/// `num` may compute `byte` as a channel of a colour: the square root of
/// the channel times 255, rounded, and no more than 255.
pub open spec fn quantises<N: Arithmetic>(num: &N, channel: Scalar, byte: u8) -> bool {
    exists|encoded: Scalar, scaled: Scalar, rounded: Scalar|
        {
            &&& roots(num, channel, encoded)
            &&& #[trigger] multiplies(num, encoded, Scalar { bits: BYTE_MAX_BITS }, scaled)
            &&& #[trigger] call_ensures(N::round, (num, scaled), rounded)
            &&& call_ensures(N::byte, (num, rounded.lesser(Scalar { bits: BYTE_MAX_BITS })), byte)
        }
}

/// A channel of a colour as a byte.
pub fn quantise<N: Arithmetic>(num: &N, channel: Scalar) -> (byte: u8)
    ensures
        quantises(num, channel, byte),
{
    let encoded = num.root(channel);
    let scaled = num.product(encoded, Scalar::from_bits(BYTE_MAX_BITS));
    let rounded = num.round(scaled);
    assert(multiplies(num, encoded, Scalar { bits: BYTE_MAX_BITS }, scaled));
    num.byte(rounded.min(Scalar::from_bits(BYTE_MAX_BITS)))
}

/// `num` may compute `channel` as the channel of a colour that a byte
/// stands for: the byte over 255.
pub open spec fn restores<N: Arithmetic>(num: &N, byte: u8, channel: Scalar) -> bool {
    exists|whole: Scalar| #[trigger]
        call_ensures(N::number, (num, byte as usize), whole) && divides(
            num,
            whole,
            Scalar { bits: BYTE_MAX_BITS },
            channel,
        )
}

/// The channel of a colour that a byte stands for.
pub fn restore<N: Arithmetic>(num: &N, byte: u8) -> (channel: Scalar)
    ensures
        restores(num, byte, channel),
{
    let whole = num.number(byte as usize);
    num.quotient(whole, Scalar::from_bits(BYTE_MAX_BITS))
}

impl Color {
    /// What `to_bytes` may return: the packed bytes of the four channels.
    pub open spec fn packs_to<N: Arithmetic>(self, num: &N, word: u32) -> bool {
        &&& quantises(num, self.0, channel(word, 0))
        &&& quantises(num, self.1, channel(word, 1))
        &&& quantises(num, self.2, channel(word, 2))
        &&& quantises(num, self.3, channel(word, 3))
    }

    /// What `from_bytes` may return: the four channels that the four
    /// bytes of the word stand for.
    pub open spec fn unpacks_from<N: Arithmetic>(self, num: &N, word: u32) -> bool {
        &&& restores(num, channel(word, 0), self.0)
        &&& restores(num, channel(word, 1), self.1)
        &&& restores(num, channel(word, 2), self.2)
        &&& restores(num, channel(word, 3), self.3)
    }

    /// Channel by channel, `self == other` as IEEE-754 defines it.
    pub open spec fn same(self, other: Color) -> bool {
        self.0.same(other.0) && self.1.same(other.1) && self.2.same(other.2) && self.3.same(other.3)
    }

    /// `num` may compute `result` as `self + other`: red, green and blue
    /// added, and an alpha of 1.
    pub open spec fn sums_to<N: Arithmetic>(self, other: Color, num: &N, result: Color) -> bool {
        &&& adds(num, self.0, other.0, result.0)
        &&& adds(num, self.1, other.1, result.1)
        &&& adds(num, self.2, other.2, result.2)
        &&& result.3.bits == ONE_BITS
    }

    /// `num` may compute `result` as `self * other`, channel by channel.
    pub open spec fn multiplies_to<N: Arithmetic>(self, other: Color, num: &N, result: Color) -> bool {
        &&& multiplies(num, self.0, other.0, result.0)
        &&& multiplies(num, self.1, other.1, result.1)
        &&& multiplies(num, self.2, other.2, result.2)
        &&& multiplies(num, self.3, other.3, result.3)
    }

    /// `num` may compute `result` as `self * factor`: red, green and blue
    /// multiplied, and an alpha of 1.
    pub open spec fn scales_to<N: Arithmetic>(self, factor: Scalar, num: &N, result: Color) -> bool {
        &&& multiplies(num, self.0, factor, result.0)
        &&& multiplies(num, self.1, factor, result.1)
        &&& multiplies(num, self.2, factor, result.2)
        &&& result.3.bits == ONE_BITS
    }

    /// `num` may compute `result` as `self / divisor`: `self` multiplied
    /// by the reciprocal of `divisor`.
    pub open spec fn divides_to<N: Arithmetic>(self, divisor: Scalar, num: &N, result: Color) -> bool {
        exists|reciprocal: Scalar| #[trigger]
            divides(num, Scalar { bits: ONE_BITS }, divisor, reciprocal) && self.scales_to(
                reciprocal,
                num,
                result,
            )
    }

    /// Each channel, but 1 where the channel is greater than 1.
    pub open spec fn clamped(self) -> Color {
        let one = Scalar { bits: ONE_BITS };
        Color(self.0.lesser(one), self.1.lesser(one), self.2.lesser(one), self.3.lesser(one))
    }

    /// `self + other`.
    pub fn plus<N: Arithmetic>(&self, other: &Color, num: &N) -> (result: Color)
        ensures
            self.sums_to(*other, num, result),
    {
        Color(num.sum(self.0, other.0), num.sum(self.1, other.1), num.sum(self.2, other.2), Scalar::one())
    }

    /// `self * other`.
    pub fn times<N: Arithmetic>(&self, other: &Color, num: &N) -> (result: Color)
        ensures
            self.multiplies_to(*other, num, result),
    {
        Color(
            num.product(self.0, other.0),
            num.product(self.1, other.1),
            num.product(self.2, other.2),
            num.product(self.3, other.3),
        )
    }

    /// `self * factor`.
    pub fn scale<N: Arithmetic>(&self, factor: Scalar, num: &N) -> (result: Color)
        ensures
            self.scales_to(factor, num, result),
    {
        Color(
            num.product(self.0, factor),
            num.product(self.1, factor),
            num.product(self.2, factor),
            Scalar::one(),
        )
    }

    /// `self / divisor`.
    pub fn over<N: Arithmetic>(&self, divisor: Scalar, num: &N) -> (result: Color)
        ensures
            self.divides_to(divisor, num, result),
    {
        let reciprocal = num.quotient(Scalar::one(), divisor);
        let result = self.scale(reciprocal, num);
        assert(divides(num, Scalar { bits: ONE_BITS }, divisor, reciprocal));
        result
    }

    /// The colour as a packed word of four bytes.
    pub fn to_bytes<N: Arithmetic>(&self, num: &N) -> (word: u32)
        ensures
            self.packs_to(num, word),
    {
        let r = quantise(num, self.0);
        let g = quantise(num, self.1);
        let b = quantise(num, self.2);
        let a = quantise(num, self.3);
        proof {
            lemma_channel_of_pack(r, g, b, a);
        }
        pack_channels(r, g, b, a)
    }

    /// The colour that a packed word of four bytes stands for.
    pub fn from_bytes<N: Arithmetic>(byte: u32, num: &N) -> (color: Color)
        ensures
            color.unpacks_from(num, byte),
    {
        let r = restore(num, unpack_channel(byte, 0));
        let g = restore(num, unpack_channel(byte, 1));
        let b = restore(num, unpack_channel(byte, 2));
        let a = restore(num, unpack_channel(byte, 3));
        Color(r, g, b, a)
    }

    /// Clamps every channel to at most 1.
    pub fn normalise(&self) -> (color: Color)
        ensures
            color == self.clamped(),
    {
        let one = Scalar::one();
        Color(self.0.min(one), self.1.min(one), self.2.min(one), self.3.min(one))
    }
}

impl PartialEq for Color {
    /// Equality of the numbers, channel by channel.
    fn eq(&self, other: &Color) -> (r: bool) {
        self.0.equals(other.0) && self.1.equals(other.1) && self.2.equals(other.2) && self.3.equals(other.3)
    }
}

impl vstd::std_specs::cmp::PartialEqSpecImpl for Color {
    open spec fn obeys_eq_spec() -> bool {
        true
    }

    open spec fn eq_spec(&self, other: &Color) -> bool {
        self.same(*other)
    }
}

} // verus!
