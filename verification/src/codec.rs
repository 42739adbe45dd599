//! Encodings that arrive inside control strings: base64 text and PNG images.
use base64::Engine;
use vstd::prelude::*;
use vstd::utf8::*;

use crate::text::{lit, utf8_text};

verus! {

// ---------------------------------------------------------------------------
// Trusted items: base64 and png
// ---------------------------------------------------------------------------

/// The standard base64 text of a byte string.
pub uninterp spec fn base64_text(bytes: Seq<u8>) -> Seq<char>;

/// What standard base64 text decodes to, `None` where it is malformed.
pub uninterp spec fn base64_data(text: Seq<u8>) -> Option<Seq<u8>>;

/// The characters of base64 text.
pub open spec fn base64_char(c: char) -> bool {
    'A' <= c <= 'Z' || 'a' <= c <= 'z' || '0' <= c <= '9' || c == '+' || c == '/' || c == '='
}

/// `base64::Engine::encode` of the standard engine: the base64 text of
/// `bytes`, made of letters, digits, `+`, `/` and `=`, which decodes to `bytes`
/// again. The bound on the length keeps the text within the address space.
#[verifier::external_body]
pub(crate) fn base64_encode(bytes: &[u8]) -> (r: String)
    requires
        bytes@.len() <= usize::MAX / 4,
    ensures
        r@ == base64_text(bytes@),
        base64_data(encode_utf8(r@)) == Some(bytes@),
        forall|i: int| 0 <= i < r@.len() ==> base64_char(#[trigger] r@[i]),
{
    base64::engine::general_purpose::STANDARD.encode(bytes)
}

/// `base64::Engine::decode` of the standard engine: the bytes that `text`
/// encodes, an error (here `None`) where it is malformed.
#[verifier::external_body]
pub(crate) fn base64_decode(text: &[u8]) -> (r: Option<Vec<u8>>)
    ensures
        r matches Some(v) ==> base64_data(text@) == Some(v@),
        r is None ==> base64_data(text@) is None,
{
    base64::engine::general_purpose::STANDARD.decode(text).ok()
}

/// The size in bytes of the pixels of a PNG image with 8-bit samples, an alpha
/// channel and no palette, `None` where its header is malformed.
pub uninterp spec fn png_buffer_size(bytes: Seq<u8>) -> Option<usize>;

/// Width, height, samples per pixel and pixels of a PNG image with 8-bit
/// samples, an alpha channel and no palette, `None` where it does not decode.
pub uninterp spec fn png_frame(bytes: Seq<u8>) -> Option<(u32, u32, usize, Seq<u8>)>;

/// `png::Reader::output_buffer_size` after `png::Decoder::read_info`.
#[verifier::external_body]
fn png_size(bytes: &[u8]) -> (r: Option<usize>)
    ensures
        r == png_buffer_size(bytes@),
{
    let mut decoder = png::Decoder::new(bytes);
    decoder.set_transformations(
        png::Transformations::EXPAND | png::Transformations::STRIP_16 | png::Transformations::ALPHA,
    );
    decoder.read_info().ok().map(|reader| reader.output_buffer_size())
}

/// `png::Reader::next_frame` into a buffer of the size that the header asks
/// for: the image's width, height, samples per pixel and pixels. The buffer
/// must be one that can be allocated.
#[verifier::external_body]
fn png_decode(bytes: &[u8]) -> (r: Option<(u32, u32, usize, Vec<u8>)>)
    requires
        png_buffer_size(bytes@) matches Some(n) && n <= usize::MAX / 2,
    ensures
        r matches Some(f) ==> png_frame(bytes@) == Some((f.0, f.1, f.2, f.3@)),
        r is None ==> png_frame(bytes@) is None,
{
    let mut decoder = png::Decoder::new(bytes);
    decoder.set_transformations(
        png::Transformations::EXPAND | png::Transformations::STRIP_16 | png::Transformations::ALPHA,
    );
    let mut reader = decoder.read_info().ok()?;
    let mut buf = vec![0u8; reader.output_buffer_size()];
    let info = reader.next_frame(&mut buf).ok()?;
    buf.truncate(info.buffer_size());
    Some((info.width, info.height, info.color_type.samples(), buf))
}

// ---------------------------------------------------------------------------
// Text in base64
// ---------------------------------------------------------------------------

/// The text that base64 data carries, `None` where the data is not base64 or
/// not UTF-8.
pub open spec fn carried_text(data: Seq<u8>) -> Option<Seq<char>> {
    match base64_data(data) {
        Some(bytes) => if valid_utf8(bytes) {
            Some(decode_utf8(bytes))
        } else {
            None
        },
        None => None,
    }
}

/// Base64 of the text `s`, as bytes.
pub open spec fn carrying(s: Seq<char>) -> Seq<u8> {
    encode_utf8(base64_text(encode_utf8(s)))
}

/// Decode text carried in base64.
pub fn decode_text(data: &[u8]) -> (r: Option<String>)
    ensures
        match r {
            Some(s) => carried_text(data@) == Some(s@),
            None => carried_text(data@) is None,
        },
{
    match base64_decode(data) {
        Some(bytes) => utf8_text(bytes.as_slice()),
        None => None,
    }
}

/// Encode text in base64. Decoding gives the text back.
pub fn encode_text(s: &str) -> (r: String)
    requires
        encode_utf8(s@).len() <= usize::MAX / 4,
    ensures
        r@ == base64_text(encode_utf8(s@)),
        carried_text(carrying(s@)) == Some(s@),
        forall|i: int| 0 <= i < r@.len() ==> base64_char(#[trigger] r@[i]),
{
    broadcast use {
        vstd::utf8::encode_utf8_valid_utf8,
        vstd::utf8::encode_utf8_decode_utf8,
    };

    base64_encode(s.as_bytes())
}

// ---------------------------------------------------------------------------
// Pixels
// ---------------------------------------------------------------------------

/// RGB pixels made opaque RGBA; a last incomplete pixel is dropped.
pub open spec fn opaque_pixels(rgb: Seq<u8>) -> Seq<u8> {
    Seq::new(
        (rgb.len() / 3 * 4) as nat,
        |i: int|
            if i % 4 == 3 {
                255u8
            } else {
                rgb[i / 4 * 3 + i % 4]
            },
    )
}

/// Grey pixels with alpha made RGBA; a last incomplete pixel is dropped.
pub open spec fn gray_pixels(ga: Seq<u8>) -> Seq<u8> {
    Seq::new(
        (ga.len() / 2 * 4) as nat,
        |i: int|
            if i % 4 == 3 {
                ga[i / 4 * 2 + 1]
            } else {
                ga[i / 4 * 2]
            },
    )
}

/// Make RGB pixels opaque RGBA.
pub fn rgb_to_rgba(rgb: &[u8]) -> (r: Vec<u8>)
    ensures
        r@ == opaque_pixels(rgb@),
{
    let mut out: Vec<u8> = Vec::new();
    let len: usize = rgb.len();
    let mut i: usize = 0;
    let ghost goal = opaque_pixels(rgb@);
    let ghost mut k: int = 0;
    while len - i >= 3
        invariant
            len == rgb@.len(),
            i <= len,
            i == 3 * k,
            k >= 0,
            goal == opaque_pixels(rgb@),
            out@.len() == 4 * k,
            forall|j: int| 0 <= j < 4 * k ==> out@[j] == goal[j],
        decreases len - i,
    {
        out.push(rgb[i]);
        out.push(rgb[i + 1]);
        out.push(rgb[i + 2]);
        out.push(255);
        i += 3;
        proof {
            k = k + 1;
        }
    }
    proof {
        assert(out@ =~= goal);
    }
    out
}

/// Make grey pixels with alpha RGBA.
pub fn gray_to_rgba(ga: &[u8]) -> (r: Vec<u8>)
    ensures
        r@ == gray_pixels(ga@),
{
    let mut out: Vec<u8> = Vec::new();
    let len: usize = ga.len();
    let mut i: usize = 0;
    let ghost goal = gray_pixels(ga@);
    let ghost mut k: int = 0;
    while len - i >= 2
        invariant
            len == ga@.len(),
            i <= len,
            i == 2 * k,
            k >= 0,
            goal == gray_pixels(ga@),
            out@.len() == 4 * k,
            forall|j: int| 0 <= j < 4 * k ==> out@[j] == goal[j],
        decreases len - i,
    {
        out.push(ga[i]);
        out.push(ga[i]);
        out.push(ga[i]);
        out.push(ga[i + 1]);
        i += 2;
        proof {
            k = k + 1;
        }
    }
    proof {
        assert(out@ =~= goal);
    }
    out
}

/// Width, height and straight RGBA pixels of a decoded frame: grey pixels are
/// spread over the three colours.
pub open spec fn frame_rgba(f: (u32, u32, usize, Seq<u8>)) -> (u32, u32, Seq<u8>) {
    (
        f.0,
        f.1,
        if f.2 == 2 {
            gray_pixels(f.3)
        } else {
            f.3
        },
    )
}

/// Width, height and straight RGBA pixels of a PNG image, `None` where it does
/// not decode or is larger than memory can hold.
pub open spec fn png_rgba(bytes: Seq<u8>) -> Option<(u32, u32, Seq<u8>)> {
    match png_buffer_size(bytes) {
        Some(n) => if n <= usize::MAX / 2 {
            match png_frame(bytes) {
                Some(f) => Some(frame_rgba(f)),
                None => None,
            }
        } else {
            None
        },
        None => None,
    }
}

/// Spread the grey pixels of a decoded frame over the three colours.
pub fn to_rgba(samples: usize, data: Vec<u8>) -> (r: Vec<u8>)
    ensures
        r@ == frame_rgba((0, 0, samples, data@)).2,
{
    if samples == 2 {
        gray_to_rgba(data.as_slice())
    } else {
        data
    }
}

/// Decode a PNG payload into width, height and RGBA8 pixels.
pub fn decode_png_rgba(bytes: &[u8]) -> (r: Option<(u32, u32, Vec<u8>)>)
    ensures
        match r {
            Some(f) => png_rgba(bytes@) == Some((f.0, f.1, f.2@)),
            None => png_rgba(bytes@) is None,
        },
{
    match png_size(bytes) {
        Some(n) => {
            if n <= usize::MAX / 2 {
                match png_decode(bytes) {
                    Some((width, height, samples, data)) => Some(
                        (width, height, to_rgba(samples, data)),
                    ),
                    None => None,
                }
            } else {
                None
            }
        },
        None => None,
    }
}

} // verus!
