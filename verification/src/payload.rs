//! Payloads: a flat file, or the framebuffer of an image with its header.
//!
//! A flat payload is replaced by its ciphertext. An image keeps its header
//! and its pixel count: the framebuffer is encrypted and the ciphertext is
//! then cut back to the length of the framebuffer.

use vstd::prelude::*;
use crate::block::lemma_padded_len;
use crate::engine::{ciphertext, encrypt_with_iv, encrypt_with_mode, lemma_ciphertext_len};
use crate::failure::Failure;
use crate::key::{derive_key, derived_key, Key};
use crate::selector::{mode_named, Mode};

verus! {

/// How the samples of a pixel are laid out.
#[derive(Clone, Copy, Debug, PartialEq, Eq, Structural)]
pub enum ColorType {
    Grayscale,
    Rgb,
    Indexed,
    GrayscaleAlpha,
    Rgba,
}

/// The number of bits in one sample.
#[derive(Clone, Copy, Debug, PartialEq, Eq, Structural)]
pub enum BitDepth {
    One,
    Two,
    Four,
    Eight,
    Sixteen,
}

/// What an image says of its framebuffer. It is read from the source image
/// and handed on unchanged.
#[derive(Clone, Copy, Debug, PartialEq, Eq, Structural)]
pub struct ImageHeader {
    pub width: u32,
    pub height: u32,
    pub color_type: ColorType,
    pub bit_depth: BitDepth,
}

/// The bytes that one run works on.
#[derive(Debug, PartialEq, Eq)]
pub enum Payload {
    /// The whole contents of a file.
    Flat { bytes: Vec<u8> },
    /// The decoded framebuffer of an image, with the header it came with.
    Image { header: ImageHeader, pixels: Vec<u8> },
}

/// A payload as a mathematical value.
pub enum Content {
    Flat { bytes: Seq<u8> },
    Image { header: ImageHeader, pixels: Seq<u8> },
}

impl View for Payload {
    type V = Content;

    open spec fn view(&self) -> Content {
        match *self {
            Payload::Flat { bytes } => Content::Flat { bytes: bytes@ },
            Payload::Image { header, pixels } => Content::Image { header, pixels: pixels@ },
        }
    }
}

/// The first `len` bytes of `cipher`, or all of it where it has no more.
pub open spec fn frame_of(cipher: Seq<u8>, len: nat) -> Seq<u8> {
    if len <= cipher.len() {
        cipher.take(len as int)
    } else {
        cipher
    }
}

/// What becomes of `content` when it is encrypted under `key` in `mode` with
/// the initialization vector `iv`. Flat bytes become their ciphertext. An
/// image keeps its header, and its pixels become the ciphertext of the
/// framebuffer cut back to the framebuffer's length.
pub open spec fn sealed(content: Content, mode: Mode, key: Seq<u8>, iv: Seq<u8>) -> Content {
    match content {
        Content::Flat { bytes } => Content::Flat { bytes: ciphertext(mode, key, iv, bytes) },
        Content::Image { header, pixels } => Content::Image {
            header,
            pixels: frame_of(ciphertext(mode, key, iv, pixels), pixels.len()),
        },
    }
}

/// `out` is `content` encrypted under `key` in `mode`: what some 16-byte
/// initialization vector gives and, where the mode draws none, the only
/// outcome there is.
pub open spec fn is_sealed(out: Content, content: Content, mode: Mode, key: Seq<u8>) -> bool {
    &&& exists|iv: Seq<u8>| iv.len() == 16 && out == #[trigger] sealed(content, mode, key, iv)
    &&& !mode.draws_iv() ==> forall|iv: Seq<u8>| out == #[trigger] sealed(content, mode, key, iv)
}

/// `out` has the shape that encrypting `content` in `mode` must give: flat
/// bytes of the mode's output length, or an image with the header and the
/// pixel count of the source.
pub open spec fn keeps_shape(out: Content, content: Content, mode: Mode) -> bool {
    match content {
        Content::Flat { bytes } => out is Flat && out->Flat_bytes.len() == mode.output_len(
            bytes.len(),
        ),
        Content::Image { header, pixels } => out is Image && out->Image_header == header
            && out->Image_pixels.len() == pixels.len(),
    }
}

/// Encrypting a payload keeps its shape, whatever the key and the vector.
pub proof fn lemma_sealed_keeps_shape(content: Content, mode: Mode, key: Seq<u8>, iv: Seq<u8>)
    ensures
        keeps_shape(sealed(content, mode, key, iv), content, mode),
{
    match content {
        Content::Flat { bytes } => {
            lemma_ciphertext_len(mode, key, iv, bytes);
        },
        Content::Image { header, pixels } => {
            lemma_ciphertext_len(mode, key, iv, pixels);
        },
    }
}

/// The pixels of an encrypted image are the ciphertext of its framebuffer
/// without a tail of fewer than sixteen bytes. Nothing is dropped in counter
/// mode, nor where the framebuffer fills whole blocks.
pub proof fn law_image_drops_padding_only(
    header: ImageHeader,
    pixels: Seq<u8>,
    mode: Mode,
    key: Seq<u8>,
    iv: Seq<u8>,
)
    ensures
        ({
            let whole = ciphertext(mode, key, iv, pixels);
            let kept = sealed(Content::Image { header, pixels }, mode, key, iv)->Image_pixels;
            &&& kept == whole.take(pixels.len() as int)
            &&& whole.len() - kept.len() < 16
            &&& (mode == Mode::Ctr || pixels.len() % 16 == 0) ==> kept == whole
        }),
{
    let whole = ciphertext(mode, key, iv, pixels);
    lemma_ciphertext_len(mode, key, iv, pixels);
    lemma_padded_len(pixels.len());
    if mode == Mode::Ctr || pixels.len() % 16 == 0 {
        assert(whole.take(pixels.len() as int) =~= whole);
    }
}

/// Cuts `cipher` back to `len` bytes, dropping the tail that padding added.
pub fn truncate_to_frame(cipher: Vec<u8>, len: usize) -> (out: Vec<u8>)
    ensures
        out@ == frame_of(cipher@, len as nat),
{
    let mut out = cipher;
    out.truncate(len);
    out
}

/// Encrypts `payload` under `key` in `mode`, with `iv` as the initialization
/// vector where the mode takes one.
pub fn encrypt_payload_with_iv(
    payload: &Payload,
    key: &Key,
    mode: Mode,
    iv: &[u8; 16],
) -> (out: Payload)
    ensures
        out@ == sealed(payload@, mode, key@, iv@),
        keeps_shape(out@, payload@, mode),
{
    proof {
        lemma_sealed_keeps_shape(payload@, mode, key@, iv@);
    }
    match payload {
        Payload::Flat { bytes } => Payload::Flat {
            bytes: encrypt_with_iv(bytes.as_slice(), key, mode, iv),
        },
        Payload::Image { header, pixels } => {
            let cipher = encrypt_with_iv(pixels.as_slice(), key, mode, iv);
            Payload::Image { header: *header, pixels: truncate_to_frame(cipher, pixels.len()) }
        },
    }
}

/// Encrypts `payload` under `key` in `mode`, drawing the initialization
/// vector where the mode takes one.
pub fn encrypt_payload_with_mode(payload: &Payload, key: &Key, mode: Mode) -> (out: Payload)
    ensures
        is_sealed(out@, payload@, mode, key@),
        keeps_shape(out@, payload@, mode),
{
    match payload {
        Payload::Flat { bytes } => {
            let cipher = encrypt_with_mode(bytes.as_slice(), key, mode);
            let out = Payload::Flat { bytes: cipher };
            proof {
                let iv = choose|iv: Seq<u8>|
                    iv.len() == 16 && cipher@ == #[trigger] ciphertext(mode, key@, iv, bytes@);
                assert(out@ == sealed(payload@, mode, key@, iv));
                if !mode.draws_iv() {
                    assert forall|iv: Seq<u8>| out@ == #[trigger] sealed(
                        payload@,
                        mode,
                        key@,
                        iv,
                    ) by {
                        assert(cipher@ == ciphertext(mode, key@, iv, bytes@));
                    }
                }
                lemma_sealed_keeps_shape(payload@, mode, key@, iv);
            }
            out
        },
        Payload::Image { header, pixels } => {
            let cipher = encrypt_with_mode(pixels.as_slice(), key, mode);
            let ghost whole = cipher@;
            let out = Payload::Image {
                header: *header,
                pixels: truncate_to_frame(cipher, pixels.len()),
            };
            proof {
                let iv = choose|iv: Seq<u8>|
                    iv.len() == 16 && whole == #[trigger] ciphertext(mode, key@, iv, pixels@);
                assert(out@ == sealed(payload@, mode, key@, iv));
                if !mode.draws_iv() {
                    assert forall|iv: Seq<u8>| out@ == #[trigger] sealed(
                        payload@,
                        mode,
                        key@,
                        iv,
                    ) by {
                        assert(whole == ciphertext(mode, key@, iv, pixels@));
                    }
                }
                lemma_sealed_keeps_shape(payload@, mode, key@, iv);
            }
            out
        },
    }
}

/// Encrypts `payload` under `key` in the mode that the token `mode` selects.
///
/// An unknown token is refused before anything is encrypted.
pub fn encrypt_payload(payload: &Payload, key: &Key, mode: &str) -> (r: Result<Payload, Failure>)
    ensures
        match mode_named(mode@) {
            Some(m) => {
                &&& r is Ok
                &&& is_sealed(r->Ok_0@, payload@, m, key@)
                &&& keeps_shape(r->Ok_0@, payload@, m)
            },
            None => r is Err && r->Err_0 == Failure::Config,
        },
{
    match Mode::from_token(mode) {
        Ok(m) => Ok(encrypt_payload_with_mode(payload, key, m)),
        Err(failure) => Err(failure),
    }
}

/// One whole run: derives the key from `password` and encrypts `payload` in
/// the mode that the token `mode` selects.
pub fn run(password: &str, payload: &Payload, mode: &str) -> (r: Result<Payload, Failure>)
    ensures
        match mode_named(mode@) {
            Some(m) => {
                &&& r is Ok
                &&& is_sealed(r->Ok_0@, payload@, m, derived_key(password@))
                &&& keeps_shape(r->Ok_0@, payload@, m)
            },
            None => r is Err && r->Err_0 == Failure::Config,
        },
{
    let key = derive_key(password);
    encrypt_payload(payload, &key, mode)
}

} // verus!
