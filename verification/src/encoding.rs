//! Digests and text encodings of bytes.
use base64::engine::general_purpose::STANDARD;
use base64::Engine;
use image::DynamicImage;
use image::ImageFormat;
use image::RgbaImage;
use sha1::Digest;
use sha1::Sha1;
use std::io::Cursor;
use vstd::prelude::*;

verus! {

/// The SHA-1 digest of a message.
pub uninterp spec fn sha1_digest(message: Seq<u8>) -> Seq<u8>;

/// `Sha1::digest`: the digest of the message, of twenty bytes.
#[verifier::external_body]
pub(crate) fn sha1(message: &[u8]) -> (digest: Vec<u8>)
    ensures
        digest@ == sha1_digest(message@),
        digest@.len() == 20,
{
    Sha1::digest(message).to_vec()
}

/// The character that stands for six bits in the standard base64 alphabet.
pub open spec fn base64_char(bits: int) -> char {
    if bits < 26 {
        ('A' as u32 + bits) as char
    } else if bits < 52 {
        ('a' as u32 + (bits - 26)) as char
    } else if bits < 62 {
        ('0' as u32 + (bits - 52)) as char
    } else if bits == 62 {
        '+'
    } else {
        '/'
    }
}

/// The standard base64 encoding, with padding: three bytes give four
/// characters, and where one or two bytes are left, `=` fills the last four.
pub open spec fn base64_text(bytes: Seq<u8>) -> Seq<char>
    decreases bytes.len(),
{
    let a = bytes[0] as int;
    let b = bytes[1] as int;
    let c = bytes[2] as int;
    if bytes.len() == 0 {
        Seq::empty()
    } else if bytes.len() == 1 {
        seq![base64_char(a / 4), base64_char(a % 4 * 16), '=', '=']
    } else if bytes.len() == 2 {
        seq![base64_char(a / 4), base64_char(a % 4 * 16 + b / 16), base64_char(b % 16 * 4), '=']
    } else {
        seq![
            base64_char(a / 4),
            base64_char(a % 4 * 16 + b / 16),
            base64_char(b % 16 * 4 + c / 64),
            base64_char(c % 64),
        ] + base64_text(bytes.skip(3))
    }
}

/// `Engine::encode` of `base64::engine::general_purpose::STANDARD`: the
/// standard alphabet, with padding.
#[verifier::external_body]
pub(crate) fn base64(bytes: &[u8]) -> (text: String)
    ensures
        text@ == base64_text(bytes@),
{
    STANDARD.encode(bytes)
}

/// The PNG file of an image of red, green, blue and alpha bytes, or what is
/// said of the error where the image cannot be encoded.
pub uninterp spec fn png_file(width: u32, height: u32, rgba: Seq<u8>) -> Result<
    Seq<u8>,
    Seq<char>,
>;

/// The number that four bytes hold, the most significant first.
pub open spec fn big_endian(bytes: Seq<u8>, at: int) -> int {
    ((bytes[at] * 256 + bytes[at + 1]) * 256 + bytes[at + 2]) * 256 + bytes[at + 3]
}

/// A file is the PNG file of an image: its header has the width and then the
/// height of the image, and it is the file of no other image.
pub open spec fn is_image_file(file: Seq<u8>, width: u32, height: u32, rgba: Seq<u8>) -> bool {
    &&& file.len() >= 24
    &&& big_endian(file, 16) == width
    &&& big_endian(file, 20) == height
    &&& forall|w: u32, h: u32, other: Seq<u8>|
        other.len() == 4 * w * h && #[trigger] png_file(w, h, other) == Ok::<Seq<u8>, Seq<char>>(
            file,
        ) ==> w == width && h == height && other == rgba
}

/// The bytes that there may be, or an error.
pub open spec fn bytes_or_error(result: Result<Vec<u8>, String>) -> Result<Seq<u8>, Seq<char>> {
    match result {
        Ok(bytes) => Ok(bytes@),
        Err(error) => Err(error@),
    }
}

/// `DynamicImage::write_to` with the PNG format, for an image of eight bits per
/// channel made by `RgbaImage::from_raw`. The file begins with a signature of
/// eight bytes and the header chunk, whose length and name take eight bytes more
/// and whose data begin with the width and the height, each in four bytes.
/// Nothing of the image is lost in the file, so no other image has it. What else
/// the file holds is left to the encoder.
#[verifier::external_body]
pub(crate) fn png(width: u32, height: u32, rgba: Vec<u8>) -> (result: Result<Vec<u8>, String>)
    requires
        rgba@.len() == 4 * width * height,
    ensures
        bytes_or_error(result) == png_file(width, height, rgba@),
        match result {
            Ok(file) => is_image_file(file@, width, height, rgba@),
            Err(_) => true,
        },
{
    let image = RgbaImage::from_raw(width, height, rgba).unwrap_or_default();
    let mut file = Cursor::new(Vec::new());
    match DynamicImage::ImageRgba8(image).write_to(&mut file, ImageFormat::Png) {
        Ok(()) => Ok(file.into_inner()),
        Err(error) => Err(error.to_string()),
    }
}

/// The four bytes of the pixel in column `x` of row `y`.
pub open spec fn pixel(width: u32, rgba: Seq<u8>, x: int, y: int) -> Seq<u8> {
    rgba.subrange(4 * (y * width + x), 4 * (y * width + x) + 4)
}

/// The pixels of an image can be told from its PNG file: every image that has the
/// file has the same width and height, which are in the header, and the same
/// pixel in every column of every row.
pub proof fn law_pixels_are_kept(
    file: Seq<u8>,
    width: u32,
    height: u32,
    rgba: Seq<u8>,
    other_width: u32,
    other_height: u32,
    other: Seq<u8>,
    x: int,
    y: int,
)
    requires
        is_image_file(file, width, height, rgba),
        other.len() == 4 * other_width * other_height,
        png_file(other_width, other_height, other) == Ok::<Seq<u8>, Seq<char>>(file),
    ensures
        other_width == width,
        other_height == height,
        big_endian(file, 16) == width,
        big_endian(file, 20) == height,
        pixel(other_width, other, x, y) == pixel(width, rgba, x, y),
{
}

/// The six bits that a character of the alphabet stands for.
pub open spec fn base64_bits(c: char) -> int {
    if 'A' <= c <= 'Z' {
        c as u32 - 'A' as u32
    } else if 'a' <= c <= 'z' {
        c as u32 - 'a' as u32 + 26
    } else if '0' <= c <= '9' {
        c as u32 - '0' as u32 + 52
    } else if c == '+' {
        62
    } else {
        63
    }
}

/// The bytes that a padded base64 text stands for.
pub open spec fn base64_bytes(text: Seq<char>) -> Seq<u8>
    decreases text.len(),
{
    let a = base64_bits(text[0]);
    let b = base64_bits(text[1]);
    let c = base64_bits(text[2]);
    let d = base64_bits(text[3]);
    let first = (a * 4 + b / 16) as u8;
    let second = (b % 16 * 16 + c / 4) as u8;
    let third = (c % 4 * 64 + d) as u8;
    if text.len() < 4 {
        Seq::empty()
    } else if text[2] == '=' {
        seq![first]
    } else if text[3] == '=' {
        seq![first, second]
    } else {
        seq![first, second, third] + base64_bytes(text.skip(4))
    }
}

proof fn lemma_base64_char(bits: int)
    requires
        0 <= bits < 64,
    ensures
        base64_bits(base64_char(bits)) == bits,
        base64_char(bits) != '=',
{
}

/// Bytes that were sent in base64 can be had back from it.
pub proof fn law_base64_can_be_undone(bytes: Seq<u8>)
    ensures
        base64_bytes(base64_text(bytes)) == bytes,
    decreases bytes.len(),
{
    if bytes.len() > 0 {
        let text = base64_text(bytes);
        let a = bytes[0] as int;
        lemma_base64_char(a / 4);
        if bytes.len() == 1 {
            lemma_base64_char(a % 4 * 16);
            assert(base64_bytes(text) =~= bytes);
        } else {
            let b = bytes[1] as int;
            lemma_base64_char(a % 4 * 16 + b / 16);
            if bytes.len() == 2 {
                lemma_base64_char(b % 16 * 4);
                assert(base64_bytes(text) =~= bytes);
            } else {
                let c = bytes[2] as int;
                lemma_base64_char(b % 16 * 4 + c / 64);
                lemma_base64_char(c % 64);
                law_base64_can_be_undone(bytes.skip(3));
                assert(text.skip(4) =~= base64_text(bytes.skip(3)));
                assert(base64_bytes(text) =~= bytes);
            }
        }
    }
}

} // verus!
