use ipa_repack::convert_icon_to_png;
use ipa_repack::raster::copy_of;
use ipa_repack::raster::encode_rgb8;
use ipa_repack::raster::jpeg_signature;
use ipa_repack::IpaError;

fn segment(marker: u8, payload: &[u8]) -> Vec<u8> {
    let length = (payload.len() + 2) as u16;
    let mut bytes = vec![0xFF, marker, (length >> 8) as u8, (length & 0xFF) as u8];
    bytes.extend_from_slice(payload);
    bytes
}

const AC_SYMBOLS: [u8; 162] = [
    0x01, 0x02, 0x03, 0x00, 0x04, 0x11, 0x05, 0x12, 0x21, 0x31, 0x41, 0x06, 0x13, 0x51, 0x61, 0x07,
    0x22, 0x71, 0x14, 0x32, 0x81, 0x91, 0xA1, 0x08, 0x23, 0x42, 0xB1, 0xC1, 0x15, 0x52, 0xD1, 0xF0,
    0x24, 0x33, 0x62, 0x72, 0x82, 0x09, 0x0A, 0x16, 0x17, 0x18, 0x19, 0x1A, 0x25, 0x26, 0x27, 0x28,
    0x29, 0x2A, 0x34, 0x35, 0x36, 0x37, 0x38, 0x39, 0x3A, 0x43, 0x44, 0x45, 0x46, 0x47, 0x48, 0x49,
    0x4A, 0x53, 0x54, 0x55, 0x56, 0x57, 0x58, 0x59, 0x5A, 0x63, 0x64, 0x65, 0x66, 0x67, 0x68, 0x69,
    0x6A, 0x73, 0x74, 0x75, 0x76, 0x77, 0x78, 0x79, 0x7A, 0x83, 0x84, 0x85, 0x86, 0x87, 0x88, 0x89,
    0x8A, 0x92, 0x93, 0x94, 0x95, 0x96, 0x97, 0x98, 0x99, 0x9A, 0xA2, 0xA3, 0xA4, 0xA5, 0xA6, 0xA7,
    0xA8, 0xA9, 0xAA, 0xB2, 0xB3, 0xB4, 0xB5, 0xB6, 0xB7, 0xB8, 0xB9, 0xBA, 0xC2, 0xC3, 0xC4, 0xC5,
    0xC6, 0xC7, 0xC8, 0xC9, 0xCA, 0xD2, 0xD3, 0xD4, 0xD5, 0xD6, 0xD7, 0xD8, 0xD9, 0xDA, 0xE1, 0xE2,
    0xE3, 0xE4, 0xE5, 0xE6, 0xE7, 0xE8, 0xE9, 0xEA, 0xF1, 0xF2, 0xF3, 0xF4, 0xF5, 0xF6, 0xF7, 0xF8,
    0xF9, 0xFA,
];

/// A baseline JPEG stream of one block for each component: a grey image of
/// at most eight by eight pixels, in three components or in one.
fn grey_jpeg(width: u16, height: u16, components: u8) -> Vec<u8> {
    assert!(width <= 8 && height <= 8);
    let mut bytes = vec![0xFF, 0xD8];
    bytes.extend(segment(0xE0, &[b'J', b'F', b'I', b'F', 0, 1, 1, 0, 0, 1, 0, 1, 0, 0]));
    let mut table = vec![0u8];
    table.extend_from_slice(&[1u8; 64]);
    bytes.extend(segment(0xDB, &table));
    let mut frame = vec![8, (height >> 8) as u8, height as u8, (width >> 8) as u8, width as u8];
    frame.push(components);
    for id in 1..=components {
        frame.extend_from_slice(&[id, 0x11, 0]);
    }
    bytes.extend(segment(0xC0, &frame));
    let mut dc = vec![0x00, 0, 1, 5, 1, 1, 1, 1, 1, 1, 0, 0, 0, 0, 0, 0, 0];
    dc.extend_from_slice(&[0, 1, 2, 3, 4, 5, 6, 7, 8, 9, 10, 11]);
    bytes.extend(segment(0xC4, &dc));
    let mut ac = vec![0x10, 0, 2, 1, 3, 3, 2, 4, 3, 5, 5, 4, 4, 0, 0, 1, 0x7D];
    ac.extend_from_slice(&AC_SYMBOLS);
    bytes.extend(segment(0xC4, &ac));
    let mut scan = vec![components];
    for id in 1..=components {
        scan.extend_from_slice(&[id, 0x00]);
    }
    scan.extend_from_slice(&[0, 0x3F, 0]);
    bytes.extend(segment(0xDA, &scan));
    if components == 3 {
        bytes.extend_from_slice(&[0x28, 0xA2, 0xBF]);
    } else {
        bytes.extend_from_slice(&[0x2B]);
    }
    bytes.extend_from_slice(&[0xFF, 0xD9]);
    bytes
}

fn decode_png(bytes: &[u8]) -> (u32, u32, png::ColorType, png::BitDepth, Vec<u8>) {
    let decoder = png::Decoder::new(bytes);
    let mut reader = decoder.read_info().unwrap();
    let mut pixels = vec![0; reader.output_buffer_size()];
    let frame = reader.next_frame(&mut pixels).unwrap();
    pixels.truncate(frame.buffer_size());
    (frame.width, frame.height, frame.color_type, frame.bit_depth, pixels)
}

fn sample_png() -> Vec<u8> {
    let pixels: Vec<u8> = (0..2 * 2 * 3).map(|i| (i * 20) as u8).collect();
    encode_rgb8(&pixels, 2, 2).unwrap()
}

#[test]
fn test_png_covert() {
    let bytes = sample_png();
    match convert_icon_to_png(&bytes) {
        Ok(_) => {}
        Err(e) => {
            println!("{}", e.message());
            assert!(false);
        }
    }
}

#[test]
fn jpeg_signature_is_three_bytes() {
    assert!(jpeg_signature(&[0xFF, 0xD8, 0xFF]));
    assert!(jpeg_signature(&[0xFF, 0xD8, 0xFF, 0xE0]));
    assert!(jpeg_signature(&grey_jpeg(5, 3, 3)));
    assert!(!jpeg_signature(&[0xFF, 0xD8]));
    assert!(!jpeg_signature(&[0xFF, 0xD8, 0xFE, 0xFF]));
    assert!(!jpeg_signature(&[0x89, b'P', b'N', b'G']));
    assert!(!jpeg_signature(&[]));
}

#[test]
fn convert_returns_what_is_no_jpeg_unchanged() {
    let png = sample_png();
    assert_eq!(convert_icon_to_png(&png).unwrap(), png);
    assert_eq!(convert_icon_to_png(b"GIF89a and so on").unwrap(), b"GIF89a and so on".to_vec());
    assert_eq!(convert_icon_to_png(&[]).unwrap(), Vec::<u8>::new());
    assert_eq!(convert_icon_to_png(&[0xFF, 0xD8]).unwrap(), vec![0xFF, 0xD8]);
    assert_eq!(convert_icon_to_png(&[0xD8, 0xFF, 0xFF, 0x00]).unwrap(), vec![0xD8, 0xFF, 0xFF, 0x00]);
}

#[test]
fn convert_reencodes_a_jpeg_with_its_dimensions() {
    let jpeg = grey_jpeg(5, 3, 3);
    let converted = convert_icon_to_png(&jpeg).unwrap();
    assert_ne!(converted, jpeg);
    assert!(converted.starts_with(&[137, 80, 78, 71, 13, 10, 26, 10]));
    let (width, height, color, depth, pixels) = decode_png(&converted);
    assert_eq!((width, height), (5, 3));
    assert_eq!(color, png::ColorType::Rgb);
    assert_eq!(depth, png::BitDepth::Eight);
    assert_eq!(pixels, vec![128u8; 5 * 3 * 3]);
}

#[test]
fn convert_leaves_a_converted_icon_as_it_is() {
    let once = convert_icon_to_png(&grey_jpeg(5, 3, 3)).unwrap();
    assert_eq!(convert_icon_to_png(&once).unwrap(), once);
    let plain = b"\x89PNG\r\n\x1a\nany other bytes".to_vec();
    let kept = convert_icon_to_png(&plain).unwrap();
    assert_eq!(kept, plain);
    assert_eq!(convert_icon_to_png(&kept).unwrap(), plain);
}

#[test]
fn encode_rgb8_begins_with_the_signature() {
    let encoded = encode_rgb8(&[1, 2, 3], 1, 1).unwrap();
    assert!(encoded.starts_with(&[137, 80, 78, 71, 13, 10, 26, 10]));
}

#[test]
fn convert_keeps_the_size_of_a_full_block() {
    let converted = convert_icon_to_png(&grey_jpeg(8, 8, 3)).unwrap();
    let (width, height, _, _, pixels) = decode_png(&converted);
    assert_eq!((width, height), (8, 8));
    assert_eq!(pixels.len(), 8 * 8 * 3);
}

#[test]
fn convert_fails_on_a_broken_jpeg() {
    for broken in [vec![0xFF, 0xD8, 0xFF], vec![0xFF, 0xD8, 0xFF, 0x00, 0x01, 0x02]] {
        let error = convert_icon_to_png(&broken).unwrap_err();
        assert!(matches!(error, IpaError::IconConversion(_)));
        assert!(error.message().starts_with("Failed to decode icon: "), "{}", error.message());
    }
    let mut cut = grey_jpeg(5, 3, 3);
    cut.truncate(40);
    assert!(matches!(convert_icon_to_png(&cut), Err(IpaError::IconConversion(_))));
}

#[test]
fn convert_fails_on_a_jpeg_that_is_not_rgb() {
    let error = convert_icon_to_png(&grey_jpeg(5, 3, 1)).unwrap_err();
    assert!(matches!(error, IpaError::IconConversion(_)));
    assert!(error.message().starts_with("Failed to write icon2: "), "{}", error.message());
}

#[test]
fn encode_rgb8_checks_the_number_of_samples() {
    let pixels = vec![7u8; 4 * 2 * 3];
    let encoded = encode_rgb8(&pixels, 4, 2).unwrap();
    let (width, height, color, depth, decoded) = decode_png(&encoded);
    assert_eq!((width, height), (4, 2));
    assert_eq!(color, png::ColorType::Rgb);
    assert_eq!(depth, png::BitDepth::Eight);
    assert_eq!(decoded, pixels);
    assert!(matches!(encode_rgb8(&pixels, 4, 3), Err(IpaError::IconConversion(_))));
    assert!(matches!(encode_rgb8(&[], 0, 0), Err(IpaError::IconConversion(_))));
    assert!(matches!(encode_rgb8(&pixels[..8], 4, 2), Err(IpaError::IconConversion(_))));
}

#[test]
fn encode_rgb8_refuses_pixels_that_do_not_fill_the_largest_image() {
    let error = encode_rgb8(&[], 65535, 65535).unwrap_err();
    assert!(matches!(error, IpaError::IconConversion(_)));
    assert!(error.message().starts_with("Failed to write icon2: "));
    let error = encode_rgb8(&[0u8; 12], 65535, 65535).unwrap_err();
    assert!(matches!(error, IpaError::IconConversion(_)));
}

#[test]
fn copy_of_copies() {
    assert_eq!(copy_of(&[1, 2, 3]), vec![1, 2, 3]);
    assert_eq!(copy_of(&[]), Vec::<u8>::new());
}
