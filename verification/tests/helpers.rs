use sframe_session::args::{has_flag, parse_u64_dec, read_flag_str, read_flag_u32, read_flag_u64};
use sframe_session::crypto::{SuiteId, suite_from_label};
use sframe_session::diag::{bytes_to_bin, to_hex};
use sframe_session::media::{
    CamFormat, PixelLayout, clamp8, make_checkerboard, nv12_to_rgb24, pick_best_format,
    remix_channels_i16, yuyv422_to_rgb24,
};

fn argv(items: &[&str]) -> Vec<String> {
    items.iter().map(|s| s.to_string()).collect()
}

#[test]
fn flags_are_found_and_read() {
    let args = argv(&["prog", "--role", "server", "--key-audio", "5", "--inspect"]);
    assert!(has_flag(&args, "--inspect"));
    assert!(!has_flag(&args, "--help"));
    assert_eq!(read_flag_str(&args, "--role", "client"), "server");
    assert_eq!(read_flag_str(&args, "--missing", "client"), "client");
    assert_eq!(read_flag_u64(&args, "--key-audio", 1), 5);
    assert_eq!(read_flag_u64(&args, "--key-video", 2), 2);
    assert_eq!(read_flag_u32(&args, "--key-audio", 1), 5);
}

#[test]
fn flag_value_must_parse() {
    let args = argv(&["prog", "--port", "abc", "--last"]);
    assert_eq!(read_flag_u32(&args, "--port", 5000), 5000);
    // A flag in last position has no value to read.
    assert_eq!(read_flag_u64(&args, "--last", 9), 9);
}

#[test]
fn decimal_parsing_limits() {
    assert_eq!(parse_u64_dec(b"0"), Some(0));
    assert_eq!(parse_u64_dec(b"18446744073709551615"), Some(u64::MAX));
    assert_eq!(parse_u64_dec(b"18446744073709551616"), None);
    assert_eq!(parse_u64_dec(b""), None);
    assert_eq!(parse_u64_dec(b"12a"), None);
    assert_eq!(parse_u64_dec(b"007"), Some(7));
}

#[test]
fn suite_labels_parse_case_insensitively() {
    assert_eq!(
        suite_from_label(b"aes-gcm128-sha256"),
        Some(SuiteId::AesGcm128Sha256)
    );
    assert_eq!(suite_from_label(b"AESGCM128"), Some(SuiteId::AesGcm128Sha256));
    assert_eq!(suite_from_label(b"128"), Some(SuiteId::AesGcm128Sha256));
    assert_eq!(
        suite_from_label(b"AES-GCM256-SHA512"),
        Some(SuiteId::AesGcm256Sha512)
    );
    assert_eq!(suite_from_label(b"256"), Some(SuiteId::AesGcm256Sha512));
    assert_eq!(suite_from_label(b"chacha"), None);
}

#[test]
fn hex_rendering_matches_reference() {
    assert_eq!(to_hex(&[]), "");
    assert_eq!(to_hex(&[0x00, 0xab, 0xff]), "00abff");
    let data: Vec<u8> = (0..=255u8).collect();
    assert_eq!(to_hex(&data), hex::encode(&data));
}

#[test]
fn binary_rendering_separates_octets() {
    assert_eq!(bytes_to_bin(&[]), "");
    assert_eq!(bytes_to_bin(&[5]), "00000101");
    assert_eq!(bytes_to_bin(&[5, 255]), "00000101 11111111");
}

#[test]
fn clamp8_limits() {
    assert_eq!(clamp8(-5), 0);
    assert_eq!(clamp8(0), 0);
    assert_eq!(clamp8(77), 77);
    assert_eq!(clamp8(255), 255);
    assert_eq!(clamp8(300), 255);
}

#[test]
fn remix_passthrough_and_downmix() {
    let stereo = [100i16, 200, -3, 0];
    assert_eq!(remix_channels_i16(&stereo, 2, 2), stereo.to_vec());
    // Truncating average, rounding toward zero as 32-bit division does.
    assert_eq!(remix_channels_i16(&stereo, 2, 1), vec![150, -1]);
    let mono = [7i16, -7];
    assert_eq!(remix_channels_i16(&mono, 1, 2), vec![7, 7, -7, -7]);
}

#[test]
fn checkerboard_pattern() {
    let fb = make_checkerboard(32, 32);
    assert_eq!(fb.len(), 32 * 32);
    assert_eq!(fb[0], 0x0022_2222);
    assert_eq!(fb[16], 0x00DD_DDDD);
    assert_eq!(fb[16 * 32], 0x00DD_DDDD);
    assert_eq!(fb[16 * 32 + 16], 0x0022_2222);
}

#[test]
fn best_format_prefers_layout_then_resolution() {
    let formats = [
        CamFormat { width: 640, height: 480, frame_rate: 30, layout: PixelLayout::Nv12 },
        CamFormat { width: 1920, height: 1080, frame_rate: 30, layout: PixelLayout::Mjpeg },
        CamFormat { width: 640, height: 480, frame_rate: 30, layout: PixelLayout::Mjpeg },
    ];
    let best = pick_best_format(&formats, 640, 480, 30).unwrap();
    assert_eq!(best, formats[2]);
    assert!(pick_best_format(&[], 640, 480, 30).is_none());
}

#[test]
fn best_format_first_wins_ties() {
    let formats = [
        CamFormat { width: 640, height: 480, frame_rate: 30, layout: PixelLayout::Yuyv },
        CamFormat { width: 640, height: 480, frame_rate: 30, layout: PixelLayout::Yuyv },
    ];
    let best = pick_best_format(&formats, 640, 480, 30).unwrap();
    assert_eq!(best, formats[0]);
}

fn reference_triplet(y: i32, u: i32, v: i32) -> [u8; 3] {
    let clamp = |x: i32| -> u8 {
        if x < 0 {
            0
        } else if x > 255 {
            255
        } else {
            x as u8
        }
    };
    let r_v = (91881 * v) >> 16;
    let g_uv = (-22554 * u - 46802 * v) >> 16;
    let b_u = (116130 * u) >> 16;
    [clamp(y + r_v), clamp(y + g_uv), clamp(y + b_u)]
}

#[test]
fn yuyv_conversion_matches_reference_formula() {
    // One row of two pixels sharing a chroma pair.
    let yuyv = [90u8, 50, 200, 180];
    let rgb = yuyv422_to_rgb24(&yuyv, 2, 1).unwrap();
    assert_eq!(rgb.len(), 6);
    let first = reference_triplet(90, 50 - 128, 180 - 128);
    let second = reference_triplet(200, 50 - 128, 180 - 128);
    assert_eq!(&rgb[..3], &first);
    assert_eq!(&rgb[3..], &second);
}

#[test]
fn yuyv_conversion_needs_enough_input() {
    assert!(yuyv422_to_rgb24(&[0u8; 3], 2, 1).is_none());
    assert!(yuyv422_to_rgb24(&[0u8; 8], 3, 1).is_none());
    assert!(yuyv422_to_rgb24(&[0u8; 7], 2, 2).is_none());
    assert!(yuyv422_to_rgb24(&[0u8; 8], 2, 1).is_some());
}

#[test]
fn nv12_conversion_matches_reference_formula() {
    // A 2x2 frame: four luma bytes, one interleaved chroma pair.
    let nv12 = [10u8, 20, 30, 40, 100, 200];
    let rgb = nv12_to_rgb24(&nv12, 2, 2).unwrap();
    assert_eq!(rgb.len(), 12);
    let u = 100 - 128;
    let v = 200 - 128;
    for (p, y) in [10i32, 20, 30, 40].iter().enumerate() {
        let expect = reference_triplet(*y, u, v);
        assert_eq!(&rgb[3 * p..3 * p + 3], &expect, "pixel {}", p);
    }
}

#[test]
fn nv12_conversion_needs_enough_input() {
    assert!(nv12_to_rgb24(&[0u8; 5], 2, 2).is_none());
    assert!(nv12_to_rgb24(&[0u8; 6], 2, 2).is_some());
}
