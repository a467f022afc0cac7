use qrgen::codec::{codec_from_extension, encode_buffer_with_format, to_rgb8, to_rgba16, Codec};
use qrgen::output::{generate, plan_output, OutputAction};
use qrgen::render::{render_ascii, render_pixels, render_unicode, GrayImage};
use qrgen::request::{render_request, resolve_request, ErrorKind, OutputKind, OutputRequest, Rendered};
use qrgen::svg::{push_decimal, render_svg};
use qrgen::symbol::encode_symbol;

fn request(payload: &str, kind: OutputKind, quiet_zone: bool, destination: Option<&str>) -> OutputRequest {
    OutputRequest {
        payload: payload.to_string(),
        kind,
        quiet_zone,
        destination: destination.map(|d| d.to_string()),
    }
}

fn text_of(req: &OutputRequest) -> String {
    match render_request(req) {
        Ok(Rendered::Text(t)) => t,
        _ => panic!("expected text"),
    }
}

#[test]
fn symbol_of_short_payload_is_version_one() {
    let s = encode_symbol("HELLO").unwrap();
    assert_eq!(s.width, 21);
    assert_eq!(s.dark.len(), 441);
    // finder pattern corners
    assert!(s.is_dark(0, 0));
    assert!(s.is_dark(0, 20));
    assert!(s.is_dark(20, 0));
    assert!(!s.is_dark(1, 1));
}

#[test]
fn ascii_dimensions_and_glyphs() {
    for qz in [false, true] {
        let t = text_of(&request("HELLO", OutputKind::Ascii, qz, None));
        let lines: Vec<&str> = t.split('\n').collect();
        let n = if qz { 27 } else { 21 };
        assert_eq!(lines.len(), n);
        for l in &lines {
            assert_eq!(l.chars().count(), n);
            assert!(l.chars().all(|c| c == '#' || c == ' '));
        }
    }
}

#[test]
fn unicode_dimensions_and_glyphs() {
    for qz in [false, true] {
        let t = text_of(&request("HELLO", OutputKind::Unicode, qz, None));
        let lines: Vec<&str> = t.split('\n').collect();
        let n = if qz { 27 } else { 21 };
        assert_eq!(lines.len(), (n + 1) / 2);
        for l in &lines {
            assert_eq!(l.chars().count(), n);
            assert!(l.chars().all(|c| c == ' ' || c == '\u{2580}' || c == '\u{2584}' || c == '\u{2588}'));
        }
    }
}

#[test]
fn quiet_zone_adds_six_modules() {
    let plain = text_of(&request("TEST", OutputKind::Ascii, false, None));
    let padded = text_of(&request("TEST", OutputKind::Ascii, true, None));
    let p: Vec<&str> = plain.split('\n').collect();
    let q: Vec<&str> = padded.split('\n').collect();
    assert_eq!(q.len(), p.len() + 6);
    assert_eq!(q[0].len(), p[0].len() + 6);
    for (r, line) in p.iter().enumerate() {
        assert_eq!(&q[r + 3][3..3 + line.len()], *line);
        assert_eq!(&q[r + 3][..3], "   ");
    }
    assert!(q[0].chars().all(|c| c == ' '));
    let img = render_pixels(&encode_symbol("TEST").unwrap(), true);
    assert_eq!((img.width, img.height), (27, 27));
}

#[test]
fn ascii_and_unicode_agree() {
    let s = encode_symbol("agreement").unwrap();
    let a: Vec<Vec<char>> = render_ascii(&s, true).split(|c| *c == '\n').map(|l| l.to_vec()).collect();
    let u: Vec<Vec<char>> = render_unicode(&s, true).split(|c| *c == '\n').map(|l| l.to_vec()).collect();
    for r in 0..a.len() {
        for c in 0..a.len() {
            let g = u[r / 2][c];
            let shown = if r % 2 == 0 {
                g == '\u{2588}' || g == '\u{2580}'
            } else {
                g == '\u{2588}' || g == '\u{2584}'
            };
            assert_eq!(a[r][c] == '#', shown);
        }
    }
}

#[test]
fn pixels_are_black_and_white_modules() {
    let s = encode_symbol("HELLO").unwrap();
    let img = render_pixels(&s, false);
    assert_eq!((img.width, img.height), (21, 21));
    assert_eq!(img.pixels.len(), 441);
    for r in 0..21 {
        for c in 0..21 {
            let expected = if s.is_dark(r, c) { 0 } else { 255 };
            assert_eq!(img.pixels[r * 21 + c], expected);
        }
    }
}

#[test]
fn image_without_destination_is_unsupported_output() {
    let r = generate(request("HELLO", OutputKind::Image, false, None));
    assert!(matches!(r, Err(ErrorKind::UnsupportedOutput)));
}

#[test]
fn image_with_unknown_extension_is_unsupported_format() {
    let r = generate(request("HELLO", OutputKind::Image, false, Some("out.xyz")));
    assert!(matches!(r, Err(ErrorKind::UnsupportedFormat)));
    let r = generate(request("HELLO", OutputKind::Image, false, Some("noextension")));
    assert!(matches!(r, Err(ErrorKind::UnsupportedFormat)));
}

#[test]
fn png_round_trip_keeps_modules() {
    let direct = match render_request(&request("HELLO", OutputKind::Image, false, None)) {
        Ok(Rendered::Pixels(g)) => g,
        _ => panic!("expected pixels"),
    };
    let bytes = match generate(request("HELLO", OutputKind::Image, false, Some("dir/out.png"))) {
        Ok(OutputAction::WriteBytes { path, bytes }) => {
            assert_eq!(path, "dir/out.png");
            bytes
        }
        _ => panic!("expected image bytes"),
    };
    assert_eq!(&bytes[..4], &[0x89, b'P', b'N', b'G']);
    let decoded = image::load_from_memory(&bytes).unwrap().to_luma8();
    assert_eq!(decoded.width(), direct.width);
    assert_eq!(decoded.height(), direct.height);
    assert_eq!(decoded.into_raw(), direct.pixels);
}

#[test]
fn too_long_payload_fails_to_encode() {
    let long = "x".repeat(5000);
    assert!(matches!(
        render_request(&request(&long, OutputKind::Ascii, false, None)),
        Err(ErrorKind::EncodingFailed)
    ));
    assert!(encode_symbol(&long).is_none());
    assert!(render_request(&request("TEST", OutputKind::Ascii, false, None)).is_ok());
}

#[test]
fn text_goes_to_stdout_or_file() {
    match generate(request("TEST", OutputKind::Ascii, false, None)) {
        Ok(OutputAction::Print(t)) => assert!(t.contains('#')),
        _ => panic!("expected print"),
    }
    match generate(request("TEST", OutputKind::Svg, true, Some("code.svg"))) {
        Ok(OutputAction::WriteText { path, text }) => {
            assert_eq!(path, "code.svg");
            assert!(text.starts_with("<?xml"));
        }
        _ => panic!("expected text file"),
    }
}

#[test]
fn svg_document_size_and_colours() {
    let s = encode_symbol("HELLO").unwrap();
    let doc: String = render_svg(&s, false).into_iter().collect();
    // 21 modules of 10 units
    assert!(doc.contains("width=\"210\" height=\"210\" viewBox=\"0 0 210 210\""));
    assert!(doc.contains("fill=\"#ffff80\""));
    assert!(doc.contains("<path fill=\"#800000\" d=\"M0 0h10v10H0Z"));
    assert!(doc.ends_with("\"/></svg>"));
    let padded: String = render_svg(&s, true).into_iter().collect();
    // 27 modules of 8 units; the symbol starts three modules in
    assert!(padded.contains("width=\"216\""));
    assert!(padded.contains("d=\"M24 24h8v8H24Z"));
}

#[test]
fn decimal_digits() {
    let mut out = Vec::new();
    push_decimal(&mut out, 0);
    out.push(',');
    push_decimal(&mut out, 1830);
    assert_eq!(out.into_iter().collect::<String>(), "0,1830");
}

#[test]
fn codec_by_extension() {
    assert_eq!(codec_from_extension("png"), Some(Codec::Png));
    assert_eq!(codec_from_extension("JPG"), Some(Codec::Jpeg));
    assert_eq!(codec_from_extension("tiff"), Some(Codec::Tiff));
    assert_eq!(codec_from_extension("Pgm"), Some(Codec::Pgm));
    assert_eq!(codec_from_extension("pbm"), Some(Codec::Pbm));
    assert_eq!(codec_from_extension("pam"), Some(Codec::Pam));
    assert_eq!(codec_from_extension("ff"), Some(Codec::Farbfeld));
    assert_eq!(codec_from_extension("webp"), None);
    assert_eq!(codec_from_extension("xyz"), None);
}

#[test]
fn encoders_write_their_formats() {
    let px = vec![0u8, 255, 255, 0];
    let bmp = encode_buffer_with_format(Codec::Bmp, &px, 2, 2).unwrap();
    assert_eq!(&bmp[..2], b"BM");
    let pgm = encode_buffer_with_format(Codec::Pgm, &px, 2, 2).unwrap();
    assert_eq!(&pgm[..2], b"P5");
    let jpeg = encode_buffer_with_format(Codec::Jpeg, &px, 2, 2).unwrap();
    assert_eq!(&jpeg[..2], &[0xFF, 0xD8]);
    let gif = encode_buffer_with_format(Codec::Gif, &px, 2, 2).unwrap();
    assert_eq!(&gif[..4], b"GIF8");
}

#[test]
fn empty_raster_is_not_encoded() {
    for codec in [Codec::Tiff, Codec::Pbm, Codec::Png, Codec::Bmp] {
        assert!(encode_buffer_with_format(codec, &[], 0, 0).is_none());
        assert!(encode_buffer_with_format(codec, &[], 0, 5).is_none());
    }
    let empty = Rendered::Pixels(GrayImage { width: 0, height: 0, pixels: vec![] });
    assert!(matches!(plan_output(empty, Some("a.tif".to_string())), Err(ErrorKind::UnsupportedFormat)));
}

#[test]
fn gif_destination_is_written() {
    let out = render_request(&request("HELLO", OutputKind::Image, false, None)).unwrap();
    match plan_output(out, Some("a.gif".to_string())) {
        Ok(OutputAction::WriteBytes { bytes, .. }) => assert_eq!(&bytes[..6], b"GIF89a"),
        _ => panic!("expected GIF bytes"),
    }
}

#[test]
fn resolve_arguments() {
    assert_eq!(OutputKind::from_name("unicode"), Some(OutputKind::Unicode));
    assert_eq!(OutputKind::from_name("svg"), Some(OutputKind::Svg));
    assert_eq!(OutputKind::from_name("png"), None);
    let r = resolve_request("image", Some("hi".to_string()), true, Some("a.png".to_string())).unwrap();
    assert_eq!(r.kind, OutputKind::Image);
    assert_eq!(r.payload, "hi");
    assert!(r.quiet_zone);
    assert!(matches!(resolve_request("ascii", None, false, None), Err(ErrorKind::InvalidArguments)));
    assert!(matches!(resolve_request("bogus", Some("x".to_string()), false, None), Err(ErrorKind::InvalidArguments)));
}

#[test]
fn other_encoders() {
    let px = vec![0u8, 255, 255, 0];
    let tiff = encode_buffer_with_format(Codec::Tiff, &px, 2, 2).unwrap();
    assert!(&tiff[..2] == b"II" || &tiff[..2] == b"MM");
    let ico = encode_buffer_with_format(Codec::Ico, &px, 2, 2).unwrap();
    assert_eq!(&ico[..4], &[0, 0, 1, 0]);
    let tga = encode_buffer_with_format(Codec::Tga, &px, 2, 2).unwrap();
    assert!(tga.len() > 18);
    let pam = encode_buffer_with_format(Codec::Pam, &px, 2, 2).unwrap();
    assert_eq!(&pam[..2], b"P7");
    let ff = encode_buffer_with_format(Codec::Farbfeld, &px, 2, 2).unwrap();
    assert_eq!(&ff[..8], b"farbfeld");
    assert_eq!(ff.len(), 16 + 4 * 8);
    // first pixel black, second white, opaque
    assert_eq!(&ff[16..24], &[0, 0, 0, 0, 0, 0, 255, 255]);
    assert_eq!(&ff[24..32], &[255; 8]);
    let pbm = encode_buffer_with_format(Codec::Pbm, &px, 2, 2).unwrap();
    assert_eq!(&pbm[..2], b"P4");
    // black (0) is a set bit: rows "black white" and "white black"
    assert_eq!(&pbm[pbm.len() - 2..], &[0b1000_0000, 0b0100_0000]);
    let ppm = encode_buffer_with_format(Codec::Ppm, &px, 2, 2).unwrap();
    assert_eq!(&ppm[..2], b"P6");
    assert_eq!(&ppm[ppm.len() - 12..], &[0, 0, 0, 255, 255, 255, 255, 255, 255, 0, 0, 0]);
}

#[test]
fn conversions_for_other_encoders() {
    assert_eq!(to_rgb8(&[7, 200]), vec![7, 7, 7, 200, 200, 200]);
    assert_eq!(to_rgba16(&[9]), vec![9, 9, 9, 9, 9, 9, 255, 255]);
}

#[test]
fn payload_within_bound_always_encodes() {
    let p = "\u{7f}".repeat(600);
    assert!(encode_symbol(&p).is_some());
    let q = "z~".repeat(300);
    assert!(render_request(&request(&q, OutputKind::Image, true, None)).is_ok());
}
