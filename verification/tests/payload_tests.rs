use modecrypt::engine::encrypt_with_iv;
use modecrypt::failure::Failure;
use modecrypt::key::derive_key;
use modecrypt::payload::{
    encrypt_payload, encrypt_payload_with_iv, encrypt_payload_with_mode, run, truncate_to_frame,
    BitDepth, ColorType, ImageHeader, Payload,
};
use modecrypt::selector::Mode;

fn small_header() -> ImageHeader {
    ImageHeader { width: 3, height: 2, color_type: ColorType::Rgb, bit_depth: BitDepth::Eight }
}

fn small_image() -> Payload {
    Payload::Image { header: small_header(), pixels: (1u8..=18).collect() }
}

fn to_png_color(color: ColorType) -> png::ColorType {
    match color {
        ColorType::Grayscale => png::ColorType::Grayscale,
        ColorType::Rgb => png::ColorType::RGB,
        ColorType::Indexed => png::ColorType::Indexed,
        ColorType::GrayscaleAlpha => png::ColorType::GrayscaleAlpha,
        ColorType::Rgba => png::ColorType::RGBA,
    }
}

fn from_png_color(color: png::ColorType) -> ColorType {
    match color {
        png::ColorType::Grayscale => ColorType::Grayscale,
        png::ColorType::RGB => ColorType::Rgb,
        png::ColorType::Indexed => ColorType::Indexed,
        png::ColorType::GrayscaleAlpha => ColorType::GrayscaleAlpha,
        png::ColorType::RGBA => ColorType::Rgba,
    }
}

fn to_png_depth(depth: BitDepth) -> png::BitDepth {
    match depth {
        BitDepth::One => png::BitDepth::One,
        BitDepth::Two => png::BitDepth::Two,
        BitDepth::Four => png::BitDepth::Four,
        BitDepth::Eight => png::BitDepth::Eight,
        BitDepth::Sixteen => png::BitDepth::Sixteen,
    }
}

fn from_png_depth(depth: png::BitDepth) -> BitDepth {
    match depth {
        png::BitDepth::One => BitDepth::One,
        png::BitDepth::Two => BitDepth::Two,
        png::BitDepth::Four => BitDepth::Four,
        png::BitDepth::Eight => BitDepth::Eight,
        png::BitDepth::Sixteen => BitDepth::Sixteen,
    }
}

fn write_png(header: &ImageHeader, pixels: &[u8]) -> Vec<u8> {
    let mut file = Vec::new();
    {
        let mut encoder = png::Encoder::new(&mut file, header.width, header.height);
        encoder.set_color(to_png_color(header.color_type));
        encoder.set_depth(to_png_depth(header.bit_depth));
        let mut writer = encoder.write_header().unwrap();
        writer.write_image_data(pixels).unwrap();
    }
    file
}

fn read_png(file: &[u8]) -> Payload {
    let decoder = png::Decoder::new(file);
    let (info, mut reader) = decoder.read_info().unwrap();
    let mut pixels = vec![0; info.buffer_size()];
    reader.next_frame(&mut pixels).unwrap();
    Payload::Image {
        header: ImageHeader {
            width: info.width,
            height: info.height,
            color_type: from_png_color(info.color_type),
            bit_depth: from_png_depth(info.bit_depth),
        },
        pixels,
    }
}

#[test]
fn a_flat_payload_becomes_its_ciphertext() {
    let key = derive_key("hello");
    let iv = [9u8; 16];
    let data = vec![0x41u8; 20];
    for mode in [Mode::Ecb, Mode::Cbc, Mode::Cfb, Mode::Ctr] {
        let out = encrypt_payload_with_iv(&Payload::Flat { bytes: data.clone() }, &key, mode, &iv);
        assert_eq!(out, Payload::Flat { bytes: encrypt_with_iv(&data, &key, mode, &iv) });
    }
}

#[test]
fn a_flat_payload_of_twenty_bytes_under_cbc_is_thirty_two_bytes() {
    let out = run("hello", &Payload::Flat { bytes: vec![0x41u8; 20] }, "CBC").unwrap();
    match out {
        Payload::Flat { bytes } => assert_eq!(bytes.len(), 32),
        Payload::Image { .. } => panic!("a flat payload stays flat"),
    }
}

#[test]
fn an_image_keeps_its_header_and_its_pixel_count() {
    let key = derive_key("hello");
    for token in ["ECB", "CBC", "CFB", "CTR"] {
        match encrypt_payload(&small_image(), &key, token).unwrap() {
            Payload::Image { header, pixels } => {
                assert_eq!(header, small_header());
                assert_eq!(pixels.len(), 18);
                assert_ne!(pixels, (1u8..=18).collect::<Vec<u8>>());
            }
            Payload::Flat { .. } => panic!("an image stays an image"),
        }
    }
}

#[test]
fn image_pixels_are_the_ciphertext_cut_to_the_framebuffer() {
    let key = derive_key("hello");
    let iv = [9u8; 16];
    let pixels: Vec<u8> = (1u8..=18).collect();
    for mode in [Mode::Ecb, Mode::Cbc, Mode::Cfb, Mode::Ctr] {
        let whole = encrypt_with_iv(&pixels, &key, mode, &iv);
        let out = encrypt_payload_with_iv(&small_image(), &key, mode, &iv);
        assert_eq!(
            out,
            Payload::Image { header: small_header(), pixels: whole[..18].to_vec() }
        );
    }
}

#[test]
fn an_image_of_whole_blocks_loses_nothing() {
    let key = derive_key("hello");
    let iv = [9u8; 16];
    let header = ImageHeader {
        width: 4,
        height: 4,
        color_type: ColorType::Grayscale,
        bit_depth: BitDepth::Sixteen,
    };
    let pixels = vec![0x80u8; 32];
    let out = encrypt_payload_with_iv(
        &Payload::Image { header, pixels: pixels.clone() },
        &key,
        Mode::Cbc,
        &iv,
    );
    assert_eq!(
        out,
        Payload::Image { header, pixels: encrypt_with_iv(&pixels, &key, Mode::Cbc, &iv) }
    );
}

#[test]
fn an_empty_framebuffer_stays_empty() {
    let key = derive_key("hello");
    let header = ImageHeader {
        width: 0,
        height: 0,
        color_type: ColorType::Rgba,
        bit_depth: BitDepth::Eight,
    };
    let out = encrypt_payload_with_mode(&Payload::Image { header, pixels: vec![] }, &key, Mode::Cfb);
    assert_eq!(out, Payload::Image { header, pixels: vec![] });
}

#[test]
fn truncation_drops_the_padding_tail_only() {
    let cipher: Vec<u8> = (0u8..32).collect();
    assert_eq!(truncate_to_frame(cipher.clone(), 20), (0u8..20).collect::<Vec<u8>>());
    assert_eq!(truncate_to_frame(cipher.clone(), 32), cipher);
    assert_eq!(truncate_to_frame(cipher.clone(), 40), cipher);
    assert_eq!(truncate_to_frame(cipher, 0), Vec::<u8>::new());
}

#[test]
fn an_unknown_mode_stops_the_run() {
    assert_eq!(
        run("hello", &Payload::Flat { bytes: vec![0x41u8; 20] }, "XYZ"),
        Err(Failure::Config)
    );
    assert_eq!(run("hello", &small_image(), "cbc"), Err(Failure::Config));
    let key = derive_key("hello");
    assert_eq!(encrypt_payload(&small_image(), &key, ""), Err(Failure::Config));
}

#[test]
fn a_run_uses_the_key_of_the_password() {
    let data = vec![0x41u8; 20];
    let out = run("hello", &Payload::Flat { bytes: data.clone() }, "CTR").unwrap();
    assert_eq!(
        out,
        Payload::Flat {
            bytes: vec![
                0x4d, 0xae, 0x52, 0xeb, 0x9c, 0x49, 0xfe, 0x6e, 0x8e, 0x97, 0x39, 0x65, 0xc3,
                0x5f, 0x06, 0x39, 0x0e, 0xd8, 0xf9, 0x74
            ]
        }
    );
    let other = run("world", &Payload::Flat { bytes: data }, "CTR").unwrap();
    assert_ne!(out, other);
}

#[test]
fn an_encrypted_png_decodes_to_the_same_shape() {
    let header = ImageHeader {
        width: 5,
        height: 3,
        color_type: ColorType::Rgb,
        bit_depth: BitDepth::Eight,
    };
    let pixels: Vec<u8> = (0u8..45).collect();
    let source = read_png(&write_png(&header, &pixels));
    assert_eq!(source, Payload::Image { header, pixels: pixels.clone() });
    for token in ["ECB", "CBC", "CFB", "CTR"] {
        let sealed = run("hello", &source, token).unwrap();
        let file = match &sealed {
            Payload::Image { header, pixels } => write_png(header, pixels),
            Payload::Flat { .. } => panic!("an image stays an image"),
        };
        match read_png(&file) {
            Payload::Image { header: seen, pixels: scrambled } => {
                assert_eq!(seen, header);
                assert_eq!(scrambled.len(), pixels.len());
                assert_ne!(scrambled, pixels);
            }
            Payload::Flat { .. } => panic!("an image stays an image"),
        }
    }
}

#[test]
fn an_encrypted_grayscale_png_decodes_to_the_same_shape() {
    let header = ImageHeader {
        width: 7,
        height: 7,
        color_type: ColorType::GrayscaleAlpha,
        bit_depth: BitDepth::Eight,
    };
    let pixels = vec![0x33u8; 98];
    let source = read_png(&write_png(&header, &pixels));
    let sealed = run("hello", &source, "ECB").unwrap();
    match sealed {
        Payload::Image { header: seen, pixels: scrambled } => {
            assert_eq!(seen, header);
            assert_eq!(scrambled.len(), 98);
            assert_eq!(scrambled[..16], scrambled[16..32]);
            let again = read_png(&write_png(&seen, &scrambled));
            assert_eq!(again, Payload::Image { header, pixels: scrambled });
        }
        Payload::Flat { .. } => panic!("an image stays an image"),
    }
}
