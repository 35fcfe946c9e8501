use fe_o::data_structures::color::{pack_channels, unpack_channel};
use fe_o::data_structures::image::{BLANK, HEADER_LENGTH};
use fe_o::data_structures::{Color, Image};
use fe_o::maths::Scalar;
use fe_o::renderer::merge;
use fe_o::traits::Arithmetic;

fn s(x: f64) -> Scalar {
    Scalar::from_bits(x.to_bits())
}

fn f(x: Scalar) -> f64 {
    f64::from_bits(x.to_bits())
}

fn color(r: f64, g: f64, b: f64, a: f64) -> Color {
    Color(s(r), s(g), s(b), s(a))
}

struct Ieee;

impl Arithmetic for Ieee {
    fn sum(&self, a: Scalar, b: Scalar) -> Scalar {
        s(f(a) + f(b))
    }

    fn difference(&self, a: Scalar, b: Scalar) -> Scalar {
        s(f(a) - f(b))
    }

    fn product(&self, a: Scalar, b: Scalar) -> Scalar {
        s(f(a) * f(b))
    }

    fn quotient(&self, a: Scalar, b: Scalar) -> Scalar {
        s(f(a) / f(b))
    }

    fn root(&self, a: Scalar) -> Scalar {
        s(f(a).sqrt())
    }

    fn remainder(&self, x: Scalar, y: Scalar) -> Scalar {
        s(f(x) % f(y))
    }

    fn cosine(&self, a: Scalar) -> Scalar {
        s(f(a).cos())
    }

    fn tangent(&self, x: Scalar) -> Scalar {
        s(f(x).tan())
    }

    fn arc_cosine(&self, x: Scalar) -> Scalar {
        s(f(x).acos())
    }

    fn arc_tangent(&self, y: Scalar, x: Scalar) -> Scalar {
        s(f(y).atan2(f(x)))
    }

    fn sine(&self, a: Scalar) -> Scalar {
        s(f(a).sin())
    }

    fn number(&self, count: usize) -> Scalar {
        s(count as f64)
    }

    fn random(&self) -> Scalar {
        s(0.5)
    }

    fn round(&self, x: Scalar) -> Scalar {
        s(f(x).round())
    }

    fn byte(&self, x: Scalar) -> u8 {
        f(x) as u8
    }
}

#[test]
fn new() {
    let image = Image::new(64, 64);
    assert!(image.pixels().len() == 64 * 64)
}

#[test]
fn to_bytes() {
    let c = color(1.0, 1.0, 1.0, 1.0);
    let bytes = c.to_bytes(&Ieee);
    assert_eq!(bytes, 0xffffffff)
}

#[test]
fn from_bytes() {
    let bytes = 0xffffffff;
    let c = Color::from_bytes(bytes, &Ieee);
    assert_eq!(c, color(1.0, 1.0, 1.0, 1.0))
}

#[test]
fn new_image_is_blank() {
    let image = Image::new(3, 2);
    assert_eq!(image.width(), 3);
    assert_eq!(image.height(), 2);
    assert_eq!(BLANK, 0xffff_ffff);
    assert!(image.pixels().iter().all(|&p| p == 0xffff_ffff));
}

#[test]
fn image_without_pixels() {
    let image = Image::new(0, 5);
    assert_eq!(image.pixels().len(), 0);
    let image = Image::new(5, 0);
    assert_eq!(image.pixels().len(), 0);
}

#[test]
fn pack_puts_red_highest() {
    assert_eq!(pack_channels(0x12, 0x34, 0x56, 0x78), 0x1234_5678);
    assert_eq!(pack_channels(0, 0, 0, 0), 0);
    assert_eq!(pack_channels(255, 255, 255, 255), 0xffff_ffff);
    assert_eq!(pack_channels(255, 0, 0, 0), 0xff00_0000);
    assert_eq!(pack_channels(0, 0, 0, 1), 1);
}

#[test]
fn unpack_reads_each_channel() {
    assert_eq!(unpack_channel(0x1234_5678, 0), 0x12);
    assert_eq!(unpack_channel(0x1234_5678, 1), 0x34);
    assert_eq!(unpack_channel(0x1234_5678, 2), 0x56);
    assert_eq!(unpack_channel(0x1234_5678, 3), 0x78);
}

#[test]
fn unpack_undoes_pack() {
    for &(r, g, b, a) in &[(0u8, 0u8, 0u8, 0u8), (1, 2, 3, 4), (255, 0, 255, 0), (200, 100, 50, 25)] {
        let word = pack_channels(r, g, b, a);
        assert_eq!(unpack_channel(word, 0), r);
        assert_eq!(unpack_channel(word, 1), g);
        assert_eq!(unpack_channel(word, 2), b);
        assert_eq!(unpack_channel(word, 3), a);
    }
}

#[test]
fn to_bytes_packs_the_quantised_channels() {
    // sqrt(0.25) * 255 = 127.5, which rounds to 128
    let c = color(0.25, 0.0, 1.0, 4.0);
    assert_eq!(c.to_bytes(&Ieee), 0x8000_ffff);
}

#[test]
fn from_bytes_restores_each_channel() {
    let c = Color::from_bytes(0xff00_3380, &Ieee);
    assert_eq!(f(c.0), 1.0);
    assert_eq!(f(c.1), 0.0);
    assert_eq!(f(c.2), 51.0 / 255.0);
    assert_eq!(f(c.3), 128.0 / 255.0);
}

#[test]
fn normalise_clamps_to_one() {
    let c = color(0.5, 1.0, 1.5, f64::INFINITY).normalise();
    assert_eq!(f(c.0), 0.5);
    assert_eq!(f(c.1), 1.0);
    assert_eq!(f(c.2), 1.0);
    assert_eq!(f(c.3), 1.0);
    let c = color(-2.0, 0.0, f64::NAN, 0.0).normalise();
    assert_eq!(f(c.0), -2.0);
    assert_eq!(f(c.2), 1.0);
}

#[test]
fn colours_add_with_an_alpha_of_one() {
    let sum = color(0.25, 0.5, 1.0, 0.5).plus(&color(0.5, 0.25, 2.0, 0.25), &Ieee);
    assert_eq!([f(sum.0), f(sum.1), f(sum.2), f(sum.3)], [0.75, 0.75, 3.0, 1.0]);
}

#[test]
fn colours_multiply_channel_by_channel() {
    let product = color(0.25, 0.5, 1.0, 0.5).times(&color(0.5, 0.25, 2.0, 0.25), &Ieee);
    assert_eq!([f(product.0), f(product.1), f(product.2), f(product.3)], [0.125, 0.125, 2.0, 0.125]);
}

#[test]
fn colours_scale_with_an_alpha_of_one() {
    let scaled = color(0.25, 0.5, 1.0, 0.5).scale(s(3.0), &Ieee);
    assert_eq!([f(scaled.0), f(scaled.1), f(scaled.2), f(scaled.3)], [0.75, 1.5, 3.0, 1.0]);
}

#[test]
fn colours_divide_by_multiplying_with_the_reciprocal() {
    let divided = color(0.25, 0.5, 1.0, 0.5).over(s(4.0), &Ieee);
    assert_eq!([f(divided.0), f(divided.1), f(divided.2), f(divided.3)], [0.0625, 0.125, 0.25, 1.0]);
    // 1 / 3 is rounded before it is multiplied
    let third = color(3.0, 0.1, 49.0, 1.0).over(s(3.0), &Ieee);
    let k = 1.0 / 3.0;
    assert_eq!([f(third.0), f(third.1), f(third.2), f(third.3)], [3.0 * k, 0.1 * k, 49.0 * k, 1.0]);
    let by_zero = color(1.0, -1.0, 0.0, 1.0).over(s(0.0), &Ieee);
    assert_eq!(f(by_zero.0), f64::INFINITY);
    assert_eq!(f(by_zero.1), f64::NEG_INFINITY);
    assert!(f(by_zero.2).is_nan());
}

#[test]
fn color_equality_is_that_of_the_numbers() {
    assert!(color(0.0, 1.0, 2.0, 3.0) == color(-0.0, 1.0, 2.0, 3.0));
    assert!(color(0.0, 1.0, 2.0, 3.0) != color(0.0, 1.0, 2.0, 3.5));
    assert!(color(f64::NAN, 1.0, 2.0, 3.0) != color(f64::NAN, 1.0, 2.0, 3.0));
}

#[test]
fn set_bytes_writes_one_place() {
    let mut image = Image::new(3, 2);
    image.set_bytes(2, 1, 0x0102_0304);
    assert_eq!(image.get_bytes(2, 1), 0x0102_0304);
    assert_eq!(image.pixels()[1 * 3 + 2], 0x0102_0304);
    for y in 0..2 {
        for x in 0..3 {
            if !(x == 2 && y == 1) {
                assert_eq!(image.get_bytes(x, y), BLANK);
            }
        }
    }
}

#[test]
fn a_column_beyond_the_row_is_a_place_of_the_next_row() {
    let mut image = Image::new(3, 2);
    image.set_bytes(5, 0, 0x0a0b_0c0d);
    assert_eq!(image.get_bytes(2, 1), 0x0a0b_0c0d);
    assert_eq!(image.get_bytes(5, 0), 0x0a0b_0c0d);
    assert_eq!(image.pixels()[5], 0x0a0b_0c0d);
}

#[test]
fn set_pixel_then_get_pixel() {
    let mut image = Image::new(2, 2);
    image.set_pixel(1, 0, &color(1.0, 0.0, 0.25, 1.0), &Ieee);
    assert_eq!(image.get_bytes(1, 0), 0xff00_80ff);
    let back = image.get_pixel(1, 0, &Ieee);
    assert_eq!(f(back.0), 1.0);
    assert_eq!(f(back.1), 0.0);
    assert_eq!(f(back.2), 128.0 / 255.0);
    assert_eq!(f(back.3), 1.0);
}

#[test]
fn encode_writes_header_and_rows_from_the_bottom() {
    let mut image = Image::new(2, 2);
    image.set_bytes(0, 0, 0x0102_03ff);
    image.set_bytes(1, 0, 0x0405_06ff);
    image.set_bytes(0, 1, 0x0708_09ff);
    image.set_bytes(1, 1, 0x0a0b_0cff);
    let bytes = image.encode();
    assert_eq!(HEADER_LENGTH, 54);
    assert_eq!(bytes.len(), 54 + 12);
    let mut header = vec![0u8; 54];
    header[0] = b'B';
    header[1] = b'M';
    header[2] = 66;
    header[10] = 54;
    header[14] = 40;
    header[18] = 2;
    header[22] = 2;
    header[26] = 1;
    header[28] = 24;
    assert_eq!(&bytes[..54], &header[..]);
    assert_eq!(&bytes[54..], &[7, 8, 9, 10, 11, 12, 1, 2, 3, 4, 5, 6]);
}

#[test]
fn encode_writes_sizes_lowest_byte_first() {
    let image = Image::new(300, 1);
    let bytes = image.encode();
    assert_eq!(bytes.len(), 54 + 900);
    assert_eq!(&bytes[2..6], &[0xba, 0x03, 0, 0]);
    assert_eq!(&bytes[18..22], &[0x2c, 0x01, 0, 0]);
    assert_eq!(&bytes[22..26], &[1, 0, 0, 0]);
    assert!(bytes[54..].iter().all(|&b| b == 255));
}

#[test]
fn encode_of_an_image_without_pixels_is_the_header() {
    let bytes = Image::new(0, 0).encode();
    assert_eq!(bytes.len(), 54);
    assert_eq!(&bytes[2..6], &[54, 0, 0, 0]);
}

fn filled(width: usize, height: usize, word: u32) -> Image {
    let mut image = Image::new(width, height);
    for y in 0..height {
        for x in 0..width {
            image.set_bytes(x, y, word);
        }
    }
    image
}

#[test]
fn merge_of_nothing_is_nothing() {
    assert!(merge(&Vec::new()).is_none());
}

#[test]
fn merge_of_images_of_different_sizes_is_nothing() {
    assert!(merge(&vec![Image::new(2, 3), Image::new(3, 2)]).is_none());
    assert!(merge(&vec![Image::new(2, 3), Image::new(2, 3), Image::new(2, 4)]).is_none());
}

#[test]
fn merge_of_one_image_is_that_image() {
    let mut image = Image::new(2, 2);
    image.set_bytes(1, 1, 0x1020_3040);
    let merged = merge(&vec![image]).unwrap();
    assert_eq!(merged.width(), 2);
    assert_eq!(merged.height(), 2);
    assert_eq!(merged.get_bytes(1, 1), 0x1020_3040);
    assert_eq!(merged.get_bytes(0, 0), BLANK);
}

#[test]
fn merge_of_equal_images_is_that_image() {
    for &count in &[2usize, 3, 4, 7] {
        let images: Vec<Image> = (0..count).map(|_| filled(3, 2, 0x7f33_c901)).collect();
        let merged = merge(&images).unwrap();
        assert_eq!(merged.pixels(), images[0].pixels());
        assert!(merged.pixels().iter().all(|&p| p == 0x7f33_c901));
    }
}

#[test]
fn merge_takes_the_mean_of_each_channel() {
    let images = vec![filled(1, 1, 0x0a14_1e28), filled(1, 1, 0x1e28_323c)];
    let merged = merge(&images).unwrap();
    assert_eq!(merged.get_bytes(0, 0), 0x141e_2832);
}

#[test]
fn merge_rounds_a_half_upwards() {
    // (1 + 2) / 2 = 1.5 -> 2; (0 + 0 + 1) / 3 -> 0; (0 + 1 + 1) / 3 -> 1; (255 + 254) / 2 -> 255
    let merged = merge(&vec![filled(1, 1, 0x0100_00ff), filled(1, 1, 0x0200_00fe)]).unwrap();
    assert_eq!(merged.get_bytes(0, 0), 0x0200_00ff);
    let merged = merge(&vec![filled(1, 1, 0x0000_0000), filled(1, 1, 0x0001_0000), filled(1, 1, 0x0101_0000)])
        .unwrap();
    assert_eq!(merged.get_bytes(0, 0), 0x0001_0000);
}

#[test]
fn merge_keeps_pixels_apart() {
    let mut a = Image::new(2, 2);
    let mut b = Image::new(2, 2);
    a.set_bytes(0, 0, 0x0000_0000);
    b.set_bytes(0, 0, 0x0404_0404);
    a.set_bytes(1, 1, 0x6400_0000);
    b.set_bytes(1, 1, 0x0000_0064);
    let merged = merge(&vec![a, b]).unwrap();
    assert_eq!(merged.get_bytes(0, 0), 0x0202_0202);
    assert_eq!(merged.get_bytes(1, 1), 0x3200_0032);
    assert_eq!(merged.get_bytes(1, 0), BLANK);
    assert_eq!(merged.get_bytes(0, 1), BLANK);
}
