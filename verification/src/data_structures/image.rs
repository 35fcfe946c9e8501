use vstd::prelude::*;
use crate::data_structures::color::{channel, unpack_channel, Color};
use crate::traits::arithmetic::Arithmetic;

verus! {

/// The packed word of a pixel that has never been set: white, opaque.
pub const BLANK: u32 = 0xffff_ffff;

/// The number of bytes before the pixel data in an encoded image.
pub const HEADER_LENGTH: usize = 54;

/// A raster of packed pixels, row by row from the top.
pub struct Image {
    pixels: Vec<u32>,
    width: usize,
    height: usize,
}

/// A word as four bytes, lowest first.
pub open spec fn le_bytes(word: u32) -> Seq<u8> {
    seq![
        (word & 0xff) as u8,
        ((word >> 8) & 0xff) as u8,
        ((word >> 16) & 0xff) as u8,
        ((word >> 24) & 0xff) as u8,
    ]
}

/// The 54 bytes that open a bitmap file of 24 bits per pixel: the
/// signature, the file's length, the place of the pixel data, the size of
/// the info block, width and height, one plane, 24 bits, and zeros.
pub open spec fn bitmap_header(width: u32, height: u32, length: u32) -> Seq<u8> {
    seq![0x42u8, 0x4d] + le_bytes(length) + seq![0u8, 0, 0, 0, 54, 0, 0, 0, 40, 0, 0, 0] + le_bytes(width)
        + le_bytes(height) + seq![1u8, 0, 24, 0] + Seq::new(24, |i: int| 0u8)
}

fn push_le_bytes(bytes: &mut Vec<u8>, word: u32)
    ensures
        final(bytes)@ == old(bytes)@ + le_bytes(word),
{
    assert(word & 0xff <= 0xff && (word >> 8) & 0xff <= 0xff && (word >> 16) & 0xff <= 0xff && (word >> 24)
        & 0xff <= 0xff) by (bit_vector);
    bytes.push((word & 0xff) as u8);
    bytes.push(((word >> 8) & 0xff) as u8);
    bytes.push(((word >> 16) & 0xff) as u8);
    bytes.push(((word >> 24) & 0xff) as u8);
    assert(bytes@ =~= old(bytes)@ + le_bytes(word));
}

impl View for Image {
    type V = Seq<u32>;

    /// The packed pixels, row by row from the top.
    closed spec fn view(&self) -> Seq<u32> {
        self.pixels@
    }
}

impl Image {
    #[verifier::type_invariant]
    spec fn sized(&self) -> bool {
        self.pixels@.len() == self.width * self.height
    }

    /// The number of columns.
    pub closed spec fn spec_width(&self) -> usize {
        self.width
    }

    /// The number of rows.
    pub closed spec fn spec_height(&self) -> usize {
        self.height
    }

    /// There is one pixel for each place. This holds of every image that
    /// the library hands out.
    pub open spec fn well_formed(&self) -> bool {
        self@.len() == self.width() * self.height()
    }

    /// The packed pixel in column `x` of row `y`.
    pub open spec fn at(&self, x: int, y: int) -> u32 {
        self@[y * self.width() + x]
    }

    #[verifier::when_used_as_spec(spec_width)]
    pub fn width(&self) -> (width: usize)
        ensures
            width == self.spec_width(),
            self.well_formed(),
    {
        proof {
            use_type_invariant(self);
        }
        self.width
    }

    #[verifier::when_used_as_spec(spec_height)]
    pub fn height(&self) -> (height: usize)
        ensures
            height == self.spec_height(),
            self.well_formed(),
    {
        proof {
            use_type_invariant(self);
        }
        self.height
    }

    /// Red, green and blue of the first `count` pixels of row `y`.
    pub open spec fn row_bytes(&self, y: int, count: int) -> Seq<u8>
        decreases count,
    {
        if count <= 0 {
            Seq::empty()
        } else {
            self.row_bytes(y, count - 1) + seq![
                channel(self.at(count - 1, y), 0),
                channel(self.at(count - 1, y), 1),
                channel(self.at(count - 1, y), 2),
            ]
        }
    }

    /// Red, green and blue of all pixels from the bottom row up to row `y`.
    pub open spec fn rows_up_to(&self, y: int) -> Seq<u8>
        decreases self.height() - y,
    {
        if y >= self.height() {
            Seq::empty()
        } else {
            self.rows_up_to(y + 1) + self.row_bytes(y, self.width() as int)
        }
    }

    /// The image as a bitmap file: the header, then three bytes for each
    /// pixel, the bottom row first. Width, height and length are written
    /// as 32-bit numbers.
    pub open spec fn encoded(&self) -> Seq<u8> {
        bitmap_header(
            self.width() as u32,
            self.height() as u32,
            (HEADER_LENGTH + self.rows_up_to(0).len()) as u32,
        ) + self.rows_up_to(0)
    }

    /// A blank image of `width` by `height` pixels.
    pub fn new(width: usize, height: usize) -> (image: Image)
        requires
            width * height <= usize::MAX,
        ensures
            image.well_formed(),
            image.width() == width,
            image.height() == height,
            forall|i: int| 0 <= i < width * height ==> image@[i] == BLANK,
    {
        let pixels: Vec<u32> = vec![BLANK; width * height];
        Image { pixels, width, height }
    }

    /// The packed pixels, row by row from the top.
    pub fn pixels(&self) -> (pixels: &Vec<u32>)
        ensures
            pixels@ == self@,
            self.well_formed(),
    {
        proof {
            use_type_invariant(self);
        }
        &self.pixels
    }

    /// Writes the packed pixel in column `x` of row `y`: the one at the
    /// place `y * width + x`, which has to be a place of the image.
    pub fn set_bytes(&mut self, x: usize, y: usize, bytes: u32)
        requires
            y * old(self).width() + x < old(self).width() * old(self).height(),
        ensures
            final(self)@ == old(self)@.update(y * old(self).width() + x, bytes),
            final(self).width() == old(self).width(),
            final(self).height() == old(self).height(),
            final(self).well_formed(),
    {
        proof {
            use_type_invariant(&*self);
            assert(0 <= y * self.width) by (nonlinear_arith);
        }
        let count: usize = self.pixels.len();
        let place: usize = y * self.width + x;
        self.pixels[place] = bytes;
    }

    /// Reads the packed pixel in column `x` of row `y`.
    pub fn get_bytes(&self, x: usize, y: usize) -> (bytes: u32)
        requires
            y * self.width() + x < self.width() * self.height(),
        ensures
            bytes == self.at(x as int, y as int),
    {
        proof {
            use_type_invariant(self);
            assert(0 <= y * self.width) by (nonlinear_arith);
        }
        let count: usize = self.pixels.len();
        self.pixels[y * self.width + x]
    }

    /// Writes a colour as the packed pixel that `num` quantises it to.
    pub fn set_pixel<N: Arithmetic>(&mut self, x: usize, y: usize, color: &Color, num: &N)
        requires
            y * old(self).width() + x < old(self).width() * old(self).height(),
        ensures
            color.packs_to(num, final(self).at(x as int, y as int)),
            final(self)@ == old(self)@.update(y * old(self).width() + x, final(self).at(x as int, y as int)),
            final(self).width() == old(self).width(),
            final(self).height() == old(self).height(),
            final(self).well_formed(),
    {
        let bytes = color.to_bytes(num);
        proof {
            use_type_invariant(&*self);
            assert(0 <= y * self.width) by (nonlinear_arith);
        }
        self.set_bytes(x, y, bytes);
    }

    /// Reads a pixel as the colour that `num` restores from its bytes.
    pub fn get_pixel<N: Arithmetic>(&self, x: usize, y: usize, num: &N) -> (color: Color)
        requires
            y * self.width() + x < self.width() * self.height(),
        ensures
            color.unpacks_from(num, self.at(x as int, y as int)),
    {
        let bytes = self.get_bytes(x, y);
        Color::from_bytes(bytes, num)
    }

    /// The image as the bytes of a bitmap file.
    pub fn encode(&self) -> (bytes: Vec<u8>)
        ensures
            bytes@ == self.encoded(),
    {
        let mut data: Vec<u8> = Vec::new();
        let mut y: usize = self.height;
        while y > 0
            invariant
                y <= self.height,
                data@ == self.rows_up_to(y as int),
            decreases y,
        {
            y = y - 1;
            let mut x: usize = 0;
            while x < self.width
                invariant
                    y < self.height,
                    x <= self.width,
                    data@ == self.rows_up_to(y + 1) + self.row_bytes(y as int, x as int),
                decreases self.width - x,
            {
                proof {
                    lemma_place_in_range(x as int, y as int, self.width() as int, self.height() as int);
                }
                let pixel = self.get_bytes(x, y);
                data.push(unpack_channel(pixel, 0));
                data.push(unpack_channel(pixel, 1));
                data.push(unpack_channel(pixel, 2));
                x = x + 1;
                assert(data@ =~= self.rows_up_to(y + 1) + self.row_bytes(y as int, x as int));
            }
        }
        let mut bytes: Vec<u8> = Vec::new();
        bytes.push(0x42);
        bytes.push(0x4d);
        let length = #[verifier::truncate]
        ((data.len() as u128 + 54) as u32);
        push_le_bytes(&mut bytes, length);
        bytes.push(0);
        bytes.push(0);
        bytes.push(0);
        bytes.push(0);
        push_le_bytes(&mut bytes, 54);
        push_le_bytes(&mut bytes, 40);
        push_le_bytes(&mut bytes, #[verifier::truncate] (self.width as u32));
        push_le_bytes(&mut bytes, #[verifier::truncate] (self.height as u32));
        bytes.push(1);
        bytes.push(0);
        bytes.push(24);
        bytes.push(0);
        let mut i: usize = 0;
        while i < 24
            invariant
                i <= 24,
                bytes@ == seq![0x42u8, 0x4d] + le_bytes(length) + seq![0u8, 0, 0, 0] + le_bytes(54) + le_bytes(
                    40,
                ) + le_bytes(self.width as u32) + le_bytes(self.height as u32) + seq![1u8, 0, 24, 0]
                    + Seq::new(i as nat, |k: int| 0u8),
            decreases 24 - i,
        {
            bytes.push(0);
            i = i + 1;
            assert(bytes@ =~= seq![0x42u8, 0x4d] + le_bytes(length) + seq![0u8, 0, 0, 0] + le_bytes(54)
                + le_bytes(40) + le_bytes(self.width as u32) + le_bytes(self.height as u32) + seq![
                1u8,
                0,
                24,
                0,
            ] + Seq::new(i as nat, |k: int| 0u8));
        }
        proof {
            assert(le_bytes(54) =~= seq![54u8, 0, 0, 0]) by {
                assert(54u32 & 0xff == 54 && (54u32 >> 8) & 0xff == 0 && (54u32 >> 16) & 0xff == 0 && (54u32
                    >> 24) & 0xff == 0) by (bit_vector);
            }
            assert(le_bytes(40) =~= seq![40u8, 0, 0, 0]) by {
                assert(40u32 & 0xff == 40 && (40u32 >> 8) & 0xff == 0 && (40u32 >> 16) & 0xff == 0 && (40u32
                    >> 24) & 0xff == 0) by (bit_vector);
            }
            assert(bytes@ =~= bitmap_header(self.width as u32, self.height as u32, length));
        }
        bytes.append(&mut data);
        bytes
    }
}

/// A place inside the raster is a place inside the row-by-row sequence.
pub proof fn lemma_place_in_range(x: int, y: int, width: int, height: int)
    requires
        0 <= x < width,
        0 <= y < height,
    ensures
        0 <= y * width <= y * width + x < width * height,
{
    assert(y * width + x < width * height) by (nonlinear_arith)
        requires
            0 <= x < width,
            0 <= y < height,
    ;
    assert(0 <= y * width + x) by (nonlinear_arith)
        requires
            0 <= x < width,
            0 <= y < height,
    ;
}

} // verus!
