use image::{DynamicImage, RgbaImage};
use wowedit::blp::{decode, is_jpeg_content, within_decoder_limits};
use wowedit::error::FormatError;

fn encoded(width: u32, height: u32) -> (Vec<u8>, Vec<u8>) {
    let pixels: Vec<u8> = (0..width * height * 4).map(|i| (i * 7 % 251) as u8).collect();
    let img = RgbaImage::from_raw(width, height, pixels.clone()).unwrap();
    let blp = wow_blp::convert::image_to_blp(
        DynamicImage::ImageRgba8(img),
        false,
        wow_blp::convert::BlpTarget::Blp2(wow_blp::convert::Blp2Format::Raw3),
        wow_blp::convert::FilterType::Nearest,
    )
    .unwrap();
    (wow_blp::encode::encode_blp(&blp).unwrap(), pixels)
}

#[test]
fn blp_decodes_to_rgba() {
    let (bytes, pixels) = encoded(4, 2);
    let img = decode(&bytes).unwrap();
    assert_eq!((img.width, img.height), (4, 2));
    assert_eq!(img.rgba, pixels);
}

#[test]
fn blp_garbage_is_an_error() {
    assert!(matches!(decode(b"not a blp file"), Err(FormatError::BlpDecode(_))));
    assert!(matches!(decode(&[]), Err(FormatError::BlpDecode(_))));
}

fn blp2_header(compression: u8, alpha_type: u8, width: u32, height: u32) -> Vec<u8> {
    let mut d = b"BLP2".to_vec();
    d.extend_from_slice(&1u32.to_le_bytes());
    d.extend_from_slice(&[compression, 8, alpha_type, 0]);
    d.extend_from_slice(&width.to_le_bytes());
    d.extend_from_slice(&height.to_le_bytes());
    d.resize(148 + 1024, 0);
    d
}

#[test]
fn decoder_limits_accept_ordinary_files() {
    let (bytes, _) = encoded(4, 2);
    assert!(within_decoder_limits(&bytes));
    assert!(within_decoder_limits(b"not a blp file"));
    assert!(within_decoder_limits(&[]));
    assert!(within_decoder_limits(&blp2_header(3, 8, 256, 256)));
}

#[test]
fn decoder_limits_refuse_overflowing_headers() {
    // offset + size of the first mipmap overflows u32
    let mut d = blp2_header(3, 8, 4, 4);
    d[20..24].copy_from_slice(&0xFFFF_FFF0u32.to_le_bytes());
    d[84..88].copy_from_slice(&0x20u32.to_le_bytes());
    assert!(!within_decoder_limits(&d));
    // width * height overflows u32
    assert!(!within_decoder_limits(&blp2_header(3, 8, 0x1_0000, 0x1_0000)));
    assert!(within_decoder_limits(&blp2_header(3, 8, 0x1_0000, 0xFFFF)));
    // palette pixels times alpha bits overflow u32
    assert!(!within_decoder_limits(&blp2_header(1, 8, 0x2000_0000, 1)));
    // a DXT image of width 0
    assert!(!within_decoder_limits(&blp2_header(2, 0, 0, 4)));
    assert!(within_decoder_limits(&blp2_header(2, 8, 0, 4)));
    // JPEG header length + 2 overflows u32
    let mut j = blp2_header(0, 0, 4, 4);
    j[4..8].copy_from_slice(&0u32.to_le_bytes());
    j[148..152].copy_from_slice(&0xFFFF_FFFEu32.to_le_bytes());
    assert!(!within_decoder_limits(&j));
}

#[test]
fn jpeg_content_is_recognised() {
    let (bytes, _) = encoded(4, 2);
    assert!(!is_jpeg_content(&bytes));
    let mut j = blp2_header(0, 0, 4, 4);
    assert!(!is_jpeg_content(&j));
    j[4..8].copy_from_slice(&0u32.to_le_bytes());
    assert!(is_jpeg_content(&j));
    j[4..8].copy_from_slice(&7u32.to_le_bytes());
    assert!(is_jpeg_content(&j));
    assert!(!is_jpeg_content(&j[..100]));
    assert!(!is_jpeg_content(b"not a blp file"));
}
